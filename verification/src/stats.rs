use vstd::prelude::*;

use crate::text::{dec_chars, push_dec, push_str};

verus! {

/// The abstract value of decompilation statistics.
pub struct StatsV {
    /// The number of scripts seen.
    pub total_scripts: nat,
    /// The number of functions in them.
    pub total_functions: nat,
    /// The number of functions decompiled.
    pub successful_functions: nat,
    /// Each error message seen, with how often; each message once, in the order first seen.
    pub errors: Seq<(Seq<char>, usize)>,
}

/// The position of message `m` among the counted errors.
pub open spec fn error_pos(errors: Seq<(Seq<char>, usize)>, m: Seq<char>) -> Option<nat>
    decreases errors.len(),
{
    if errors.len() == 0 {
        None
    } else if errors.last().0 == m {
        Some((errors.len() - 1) as nat)
    } else {
        error_pos(errors.drop_last(), m)
    }
}

/// Whether each message is counted once.
pub open spec fn messages_distinct(errors: Seq<(Seq<char>, usize)>) -> bool {
    forall|i: int, j: int| 0 <= i < j < errors.len() ==> (#[trigger] errors[i]).0 != (#[trigger] errors[j]).0
}

/// The counted errors after one more occurrence of message `m`.
pub open spec fn errors_added(errors: Seq<(Seq<char>, usize)>, m: Seq<char>) -> Seq<(Seq<char>, usize)> {
    match error_pos(errors, m) {
        Some(i) => errors.update(i as int, (m, (errors[i as int].1 + 1) as usize)),
        None => errors.push((m, 1)),
    }
}

/// Where message `m` is, it is there.
pub proof fn lemma_error_pos(errors: Seq<(Seq<char>, usize)>, m: Seq<char>)
    ensures
        error_pos(errors, m) matches Some(i) ==> i < errors.len() && errors[i as int].0 == m,
        error_pos(errors, m) is None ==> forall|k: int| 0 <= k < errors.len() ==> (#[trigger] errors[k]).0 != m,
    decreases errors.len(),
{
    if errors.len() > 0 && errors.last().0 != m {
        lemma_error_pos(errors.drop_last(), m);
        assert forall|k: int| 0 <= k < errors.len() - 1 implies #[trigger] errors[k] == errors.drop_last()[k] by {}
    }
}

/// Whether `top` holds the `n` most frequent errors, most frequent first: as many as there
/// are, up to `n`, each a counted error and each once, and no error left out counted more
/// often than the last one taken.
pub open spec fn is_top_errors(errors: Seq<(Seq<char>, usize)>, n: nat, top: Seq<(Seq<char>, usize)>) -> bool {
    &&& top.len() == if n < errors.len() { n } else { errors.len() }
    &&& forall|i: int, j: int| 0 <= i < j < top.len() ==> (#[trigger] top[i]).1 >= (#[trigger] top[j]).1
    &&& forall|i: int| 0 <= i < top.len() ==> errors.contains(#[trigger] top[i])
    &&& messages_distinct(top)
    &&& forall|k: int|
        0 <= k < errors.len() && !top.contains(#[trigger] errors[k]) && top.len() > 0 ==> errors[k].1 <= top.last().1
}

/// The lines listing errors: for each, a line break, its rank from `first`, a dot, a space,
/// the message and its count in parentheses.
pub open spec fn error_lines(top: Seq<(Seq<char>, usize)>, first: nat) -> Seq<char>
    decreases top.len(),
{
    if top.len() == 0 {
        Seq::empty()
    } else {
        error_lines(top.drop_last(), first) + "\n"@ + dec_chars(first + top.len()) + ". "@ + top.last().0 + " ("@
            + dec_chars(top.last().1 as nat) + ")"@
    }
}

/// Statistics of a decompilation run: scripts, functions, successes and errors by message.
pub struct DecompStats {
    total_scripts: usize,
    total_functions: usize,
    successful_functions: usize,
    error_counts: Vec<(String, usize)>,
}

/// The abstract values of counted errors.
pub open spec fn counted_views(s: Seq<(String, usize)>) -> Seq<(Seq<char>, usize)> {
    s.map_values(|e: (String, usize)| (e.0@, e.1))
}

impl View for DecompStats {
    type V = StatsV;

    closed spec fn view(&self) -> StatsV {
        StatsV {
            total_scripts: self.total_scripts as nat,
            total_functions: self.total_functions as nat,
            successful_functions: self.successful_functions as nat,
            errors: counted_views(self.error_counts@),
        }
    }
}

impl DecompStats {
    /// Whether each message is counted once.
    pub closed spec fn wf(&self) -> bool {
        messages_distinct(counted_views(self.error_counts@))
    }

    /// No scripts, functions or errors yet.
    pub fn new() -> (s: Self)
        ensures
            s.wf(),
            s@ == (StatsV { total_scripts: 0, total_functions: 0, successful_functions: 0, errors: Seq::empty() }),
    {
        let s = DecompStats { total_scripts: 0, total_functions: 0, successful_functions: 0, error_counts: Vec::new() };
        assert(counted_views(s.error_counts@) =~= Seq::empty());
        s
    }

    /// The number of scripts seen.
    pub fn total_scripts(&self) -> (n: usize)
        ensures
            n == self@.total_scripts,
    {
        self.total_scripts
    }

    /// The number of functions in the scripts seen.
    pub fn total_functions(&self) -> (n: usize)
        ensures
            n == self@.total_functions,
    {
        self.total_functions
    }

    /// The number of functions decompiled.
    pub fn successful_functions(&self) -> (n: usize)
        ensures
            n == self@.successful_functions,
    {
        self.successful_functions
    }

    /// Counts a script and its functions.
    pub fn add_script(&mut self, function_count: usize)
        requires
            old(self)@.total_scripts < usize::MAX,
            old(self)@.total_functions + function_count <= usize::MAX,
        ensures
            final(self).wf() == old(self).wf(),
            final(self)@ == (StatsV {
                total_scripts: old(self)@.total_scripts + 1,
                total_functions: (old(self)@.total_functions + function_count) as nat,
                ..old(self)@
            }),
    {
        self.total_scripts = self.total_scripts + 1;
        self.total_functions = self.total_functions + function_count;
    }

    /// Counts a function decompiled.
    pub fn add_success(&mut self)
        requires
            old(self)@.successful_functions < usize::MAX,
        ensures
            final(self).wf() == old(self).wf(),
            final(self)@ == (StatsV { successful_functions: old(self)@.successful_functions + 1, ..old(self)@ }),
    {
        self.successful_functions = self.successful_functions + 1;
    }

    /// Counts an error with message `error`.
    pub fn add_error(&mut self, error: String)
        requires
            old(self).wf(),
            error_pos(old(self)@.errors, error@) matches Some(i) ==> old(self)@.errors[i as int].1 < usize::MAX,
        ensures
            final(self).wf(),
            final(self)@ == (StatsV { errors: errors_added(old(self)@.errors, error@), ..old(self)@ }),
    {
        let ghost before = counted_views(self.error_counts@);
        proof {
            lemma_error_pos(before, error@);
        }
        let mut i: usize = self.error_counts.len();
        assert(before.take(i as int) =~= before);
        while i > 0
            invariant
                i <= self.error_counts@.len(),
                before == counted_views(self.error_counts@),
                *self == *old(self),
                messages_distinct(before),
                error_pos(before, error@) matches Some(p) ==> before[p as int].1 < usize::MAX,
                error_pos(before, error@) == error_pos(before.take(i as int), error@),
            decreases i,
        {
            proof {
                assert(before.take(i as int).drop_last() =~= before.take(i - 1));
            }
            if crate::text::str_eq(self.error_counts[i - 1].0.as_str(), error.as_str()) {
                proof {
                    assert(before.take(i as int).last() == before[i - 1]);
                    assert(error_pos(before, error@) == Some((i - 1) as nat));
                }
                let count = self.error_counts[i - 1].1;
                let key = self.error_counts[i - 1].0.clone();
                self.error_counts.set(i - 1, (key, count + 1));
                proof {
                    assert(counted_views(self.error_counts@) =~= errors_added(before, error@));
                }
                return;
            }
            i = i - 1;
        }
        proof {
            assert(error_pos(before, error@) is None);
        }
        let ghost e = error@;
        self.error_counts.push((error, 1));
        proof {
            assert(counted_views(self.error_counts@) =~= before.push((e, 1)));
        }
    }

    /// The `n` most frequent errors, most frequent first (see `is_top_errors`).
    pub fn top_errors(&self, n: usize) -> (top: Vec<(String, usize)>)
        requires
            self.wf(),
        ensures
            is_top_errors(self@.errors, n as nat, counted_views(top@)),
    {
        let ghost errors = counted_views(self.error_counts@);
        let len = self.error_counts.len();
        let want = if n < len { n } else { len };
        let mut taken: Vec<bool> = Vec::new();
        let mut j: usize = 0;
        while j < len
            invariant
                j <= len,
                taken@.len() == j,
                forall|k: int| 0 <= k < j ==> !taken@[k],
            decreases len - j,
        {
            taken.push(false);
            j = j + 1;
        }
        let mut top: Vec<(String, usize)> = Vec::new();
        let ghost mut picks: Seq<int> = Seq::empty();
        while top.len() < want
            invariant
                want <= len,
                len == self.error_counts@.len(),
                errors == counted_views(self.error_counts@),
                messages_distinct(errors),
                taken@.len() == len,
                top@.len() <= want,
                picks.len() == top@.len(),
                want == if n < len { n } else { len },
                forall|t: int| 0 <= t < picks.len() ==> 0 <= #[trigger] picks[t] < len,
                forall|t: int| 0 <= t < picks.len() ==> counted_views(top@)[t] == errors[#[trigger] picks[t]],
                forall|t: int| 0 <= t < picks.len() ==> taken@[#[trigger] picks[t]],
                forall|k: int| 0 <= k < len && taken@[k] ==> exists|t: int| 0 <= t < picks.len() && #[trigger] picks[t] == k,
                forall|s: int, t: int| 0 <= s < t < picks.len() ==> #[trigger] picks[s] != #[trigger] picks[t],
                forall|s: int, t: int| 0 <= s < t < top@.len() ==> (#[trigger] top@[s]).1 >= (#[trigger] top@[t]).1,
                forall|k: int| 0 <= k < len && !taken@[k] && top@.len() > 0 ==> errors[k].1 <= top@.last().1,
            ensures
                top@.len() == want,
            decreases want - top@.len(),
        {
            let mut best: usize = len;
            let mut k: usize = 0;
            while k < len
                invariant
                    k <= len,
                    len == self.error_counts@.len(),
                    taken@.len() == len,
                    best == len || (best < k && !taken@[best as int]),
                    best == len ==> forall|q: int| 0 <= q < k ==> taken@[q],
                    best < len ==> forall|q: int| 0 <= q < k && !taken@[q] ==> self.error_counts@[q].1 <= self.error_counts@[best as int].1,
                decreases len - k,
            {
                if !taken[k] && (best == len || self.error_counts[k].1 > self.error_counts[best].1) {
                    best = k;
                }
                k = k + 1;
            }
            if best == len {
                proof {
                    assert(false) by {
                        lemma_picks_cover(picks, taken@, len as int);
                    }
                }
                break;
            }
            let ghost old_top = counted_views(top@);
            let ghost old_taken = taken@;
            let ghost old_picks = picks;
            taken.set(best, true);
            let key = self.error_counts[best].0.clone();
            top.push((key, self.error_counts[best].1));
            proof {
                picks = picks.push(best as int);
                assert(counted_views(top@) =~= old_top.push(errors[best as int]));
                assert forall|q: int| 0 <= q < len && taken@[q] implies exists|t: int| 0 <= t < picks.len() && #[trigger] picks[t] == q by {
                    if q == best {
                        assert(picks[picks.len() - 1] == q);
                    } else {
                        assert(old_taken[q]);
                        let t = choose|t: int| 0 <= t < old_picks.len() && #[trigger] old_picks[t] == q;
                        assert(picks[t] == q);
                    }
                }
            }
        }
        proof {
            lemma_top_facts(errors, picks, counted_views(top@), taken@, n as nat);
        }
        top
    }
}

/// Fewer picks than entries leave an entry not taken.
proof fn lemma_picks_cover(picks: Seq<int>, taken: Seq<bool>, len: int)
    requires
        taken.len() == len,
        picks.len() < len,
        forall|t: int| 0 <= t < picks.len() ==> 0 <= #[trigger] picks[t] < len,
        forall|k: int| 0 <= k < len && taken[k] ==> exists|t: int| 0 <= t < picks.len() && #[trigger] picks[t] == k,
    ensures
        exists|k: int| 0 <= k < len && !taken[k],
{
    if forall|k: int| 0 <= k < len ==> taken[k] {
        let f = |k: int| choose|t: int| 0 <= t < picks.len() && picks[t] == k;
        assert forall|a: int| 0 <= a < len implies 0 <= #[trigger] f(a) < picks.len() && picks[f(a)] == a by {
            assert(taken[a]);
        }
        assert forall|a: int, b: int| 0 <= a < b < len implies #[trigger] f(a) != #[trigger] f(b) by {
            assert(picks[f(a)] == a);
            assert(picks[f(b)] == b);
        }
        lemma_injection_bound(f, len, picks.len() as int);
    }
}

/// An injection from `0..len` into `0..bound` needs `len <= bound`.
proof fn lemma_injection_bound(f: spec_fn(int) -> int, len: int, bound: int)
    requires
        0 <= bound,
        forall|a: int| 0 <= a < len ==> 0 <= #[trigger] f(a) < bound,
        forall|a: int, b: int| 0 <= a < b < len ==> #[trigger] f(a) != #[trigger] f(b),
    ensures
        len <= bound,
    decreases len,
{
    if len > 0 {
        let last = f(len - 1);
        assert(0 <= last < bound);
        let g = |a: int| if f(a) == bound - 1 { last } else { f(a) };
        assert forall|a: int| 0 <= a < len - 1 implies 0 <= #[trigger] g(a) < bound - 1 by {
            assert(0 <= f(a) < bound);
            assert(f(a) != f(len - 1));
            if f(a) == bound - 1 {
                assert(last != bound - 1);
            }
        }
        assert forall|a: int, b: int| 0 <= a < b < len - 1 implies #[trigger] g(a) != #[trigger] g(b) by {
            assert(f(a) != f(b));
            assert(f(a) != f(len - 1));
            assert(f(b) != f(len - 1));
        }
        lemma_injection_bound(g, len - 1, bound - 1);
    }
}

/// The picks made by `top_errors` give the most frequent errors.
proof fn lemma_top_facts(errors: Seq<(Seq<char>, usize)>, picks: Seq<int>, top: Seq<(Seq<char>, usize)>, taken: Seq<bool>, n: nat)
    requires
        messages_distinct(errors),
        taken.len() == errors.len(),
        picks.len() == top.len(),
        top.len() == if n < errors.len() { n } else { errors.len() },
        forall|t: int| 0 <= t < picks.len() ==> 0 <= #[trigger] picks[t] < errors.len(),
        forall|t: int| 0 <= t < picks.len() ==> top[t] == errors[#[trigger] picks[t]],
        forall|t: int| 0 <= t < picks.len() ==> taken[#[trigger] picks[t]],
        forall|k: int| 0 <= k < errors.len() && taken[k] ==> exists|t: int| 0 <= t < picks.len() && #[trigger] picks[t] == k,
        forall|s: int, t: int| 0 <= s < t < picks.len() ==> #[trigger] picks[s] != #[trigger] picks[t],
        forall|s: int, t: int| 0 <= s < t < top.len() ==> (#[trigger] top[s]).1 >= (#[trigger] top[t]).1,
        forall|k: int| 0 <= k < errors.len() && !taken[k] && top.len() > 0 ==> errors[k].1 <= top.last().1,
    ensures
        is_top_errors(errors, n, top),
{
    assert forall|i: int| 0 <= i < top.len() implies errors.contains(#[trigger] top[i]) by {
        assert(errors[picks[i]] == top[i]);
    }
    assert forall|i: int, j: int| 0 <= i < j < top.len() implies (#[trigger] top[i]).0 != (#[trigger] top[j]).0 by {
        assert(picks[i] != picks[j]);
        if picks[i] < picks[j] {
            assert(errors[picks[i]].0 != errors[picks[j]].0);
        } else {
            assert(errors[picks[j]].0 != errors[picks[i]].0);
        }
    }
    assert forall|k: int|
        0 <= k < errors.len() && !top.contains(#[trigger] errors[k]) && top.len() > 0 implies errors[k].1 <= top.last().1 by {
        if taken[k] {
            let t = choose|t: int| 0 <= t < picks.len() && #[trigger] picks[t] == k;
            assert(top[t] == errors[k]);
            assert(top.contains(errors[k]));
        }
    }
}

/// Appends the lines listing errors (see `error_lines`).
pub fn push_error_lines(out: &mut String, top: &Vec<(String, usize)>)
    requires
        top@.len() < usize::MAX,
    ensures
        final(out)@ == old(out)@ + error_lines(counted_views(top@), 0),
{
    let ghost tv = counted_views(top@);
    let ghost start = old(out)@;
    let mut i: usize = 0;
    while i < top.len()
        invariant
            i <= top@.len(),
            top@.len() < usize::MAX,
            tv == counted_views(top@),
            out@ == start + error_lines(tv.take(i as int), 0),
        decreases top@.len() - i,
    {
        push_str(out, "\n");
        push_dec(out, (i + 1) as u64);
        push_str(out, ". ");
        push_str(out, top[i].0.as_str());
        push_str(out, " (");
        push_dec(out, top[i].1 as u64);
        push_str(out, ")");
        proof {
            assert(tv.take(i + 1).drop_last() =~= tv.take(i as int));
            assert(tv.take(i + 1).last() == tv[i as int]);
            assert(out@ =~= start + error_lines(tv.take(i + 1), 0));
        }
        i = i + 1;
    }
    proof {
        assert(tv.take(i as int) =~= tv);
    }
}

} // verus!
