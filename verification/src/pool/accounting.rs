//! Pay-per-last-N-shares accounting: a window of the most recent shares whose
//! total value is at most N, and what each prover holds of it.

use std::collections::VecDeque;
use vstd::prelude::*;

verus! {

/// One accepted share: its value (the proof difficulty) and the address of
/// the prover that found it.
pub struct Share {
    pub value: u64,
    pub owner: String,
}

/// A share as the contracts see it.
pub struct ShareView {
    pub value: u64,
    pub owner: Seq<char>,
}

impl View for Share {
    type V = ShareView;

    open spec fn view(&self) -> ShareView {
        ShareView { value: self.value, owner: self.owner@ }
    }
}

impl Share {
    pub fn init(value: u64, owner: String) -> (share: Self)
        ensures
            share.value == value,
            share.owner@ == owner@,
    {
        Share { value, owner }
    }

    fn duplicate(&self) -> (copy: Self)
        ensures
            copy@ == self@,
    {
        Share { value: self.value, owner: self.owner.clone() }
    }
}

/// The shares of a sequence, as the contracts see them.
pub open spec fn share_views(shares: Seq<Share>) -> Seq<ShareView> {
    shares.map_values(|s: Share| s@)
}

/// The total value of a sequence of shares.
pub open spec fn total_value(shares: Seq<ShareView>) -> nat
    decreases shares.len(),
{
    if shares.len() == 0 {
        0
    } else {
        (total_value(shares.drop_last()) + shares.last().value) as nat
    }
}

/// What remains of `shares` once the oldest are dropped, one at a time, for
/// as long as the total exceeds `n`.
pub open spec fn trim_to(shares: Seq<ShareView>, n: nat) -> Seq<ShareView>
    decreases shares.len(),
{
    if total_value(shares) <= n || shares.len() == 0 {
        shares
    } else {
        trim_to(shares.drop_first(), n)
    }
}

/// The value each owner holds in `shares`, summed over their shares.
pub open spec fn owner_totals(shares: Seq<ShareView>) -> Map<Seq<char>, nat>
    decreases shares.len(),
{
    if shares.len() == 0 {
        Map::empty()
    } else {
        let before = owner_totals(shares.drop_last());
        let last = shares.last();
        let prior = if before.contains_key(last.owner) {
            before[last.owner]
        } else {
            0
        };
        before.insert(last.owner, (prior + last.value) as nat)
    }
}

/// The owners in a list of totals, as the contracts see them.
pub open spec fn owners_of(totals: Seq<(String, u64)>) -> Seq<Seq<char>> {
    totals.map_values(|t: (String, u64)| t.0@)
}

/// `totals` names each owner at most once and gives exactly the sums of
/// `expected`.
pub open spec fn lists_totals(totals: Seq<(String, u64)>, expected: Map<Seq<char>, nat>) -> bool {
    &&& owners_of(totals).no_duplicates()
    &&& forall|o: Seq<char>| expected.contains_key(o) <==> #[trigger] owners_of(totals).contains(o)
    &&& forall|i: int| 0 <= i < totals.len() ==> #[trigger] totals[i].1 == expected[totals[i].0@]
}

/// The PPLNS window: the most recent shares whose total value is at most
/// `n`, oldest first.
#[allow(non_camel_case_types)]
pub struct PPLNS {
    queue: VecDeque<Share>,
    current_n: u64,
    n: u64,
}

/// What the pool does with one accounting message.
pub enum AccountingMessage {
    /// A share of the given value from the given prover address.
    NewShare(String, u64),
    /// A new window size.
    SetN(u64),
    /// A solution was found; the text names its commitment.
    NewSolution(String),
    /// The pool is shutting down.
    Exit,
}

/// What is left to do after a message has been applied to the window.
pub enum AccountingAction {
    /// Nothing more.
    Done,
    /// Record the solution with the provers' shares of the window when it was
    /// found: their number and each prover's total.
    RecordSolution(String, u32, Vec<(String, u64)>),
    /// Save the window and stop taking messages.
    SaveAndExit,
}

proof fn lemma_total_push(shares: Seq<ShareView>, share: ShareView)
    ensures
        total_value(shares.push(share)) == total_value(shares) + share.value,
{
    assert(shares.push(share).drop_last() =~= shares);
}

proof fn lemma_total_drop_first(shares: Seq<ShareView>)
    requires
        shares.len() > 0,
    ensures
        total_value(shares) == shares[0].value + total_value(shares.drop_first()),
    decreases shares.len(),
{
    let rest = shares.drop_first();
    let front = shares.drop_last();
    assert(total_value(shares) == total_value(front) + shares.last().value);
    if shares.len() > 1 {
        lemma_total_drop_first(front);
        assert(front.drop_first() =~= rest.drop_last());
        assert(rest.last() == shares.last());
        assert(front[0] == shares[0]);
        assert(total_value(rest) == total_value(rest.drop_last()) + rest.last().value);
    } else {
        assert(rest.len() == 0);
        assert(front.len() == 0);
        assert(total_value(front) == 0);
        assert(total_value(rest) == 0);
        assert(shares.last() == shares[0]);
    }
}

proof fn lemma_total_prefix_bound(shares: Seq<ShareView>, k: int)
    requires
        0 <= k <= shares.len(),
    ensures
        total_value(shares.subrange(0, k)) <= total_value(shares),
    decreases shares.len() - k,
{
    if k < shares.len() {
        lemma_total_prefix_bound(shares, k + 1);
        lemma_total_push(shares.subrange(0, k), shares[k]);
        assert(shares.subrange(0, k).push(shares[k]) =~= shares.subrange(0, k + 1));
    } else {
        assert(shares.subrange(0, k) =~= shares);
    }
}

proof fn lemma_trim_bound(shares: Seq<ShareView>, n: nat)
    ensures
        total_value(trim_to(shares, n)) <= n,
    decreases shares.len(),
{
    if total_value(shares) <= n || shares.len() == 0 {
        if shares.len() == 0 {
            assert(total_value(shares) == 0);
        }
    } else {
        lemma_trim_bound(shares.drop_first(), n);
    }
}

proof fn lemma_trim_small(shares: Seq<ShareView>, n: nat)
    requires
        total_value(shares) <= n,
    ensures
        trim_to(shares, n) == shares,
{
}

impl View for PPLNS {
    type V = Seq<ShareView>;

    /// The shares in the window, oldest first.
    closed spec fn view(&self) -> Seq<ShareView> {
        share_views(self.queue@)
    }
}

impl PPLNS {
    /// The window size N.
    pub closed spec fn window(&self) -> nat {
        self.n as nat
    }

    /// The running total of the window's shares.
    pub closed spec fn current(&self) -> nat {
        self.current_n as nat
    }

    /// The running total is the total of the shares, and it fits in N.
    pub closed spec fn wf(&self) -> bool {
        &&& self.current_n == total_value(self@)
        &&& self.current_n <= self.n
    }

    /// An empty window of size zero.
    pub fn new() -> (pplns: Self)
        ensures
            pplns.wf(),
            pplns@ == Seq::<ShareView>::empty(),
            pplns.window() == 0,
            pplns.current() == 0,
    {
        let pplns = PPLNS { queue: VecDeque::new(), current_n: 0, n: 0 };
        assert(pplns@ =~= Seq::<ShareView>::empty());
        pplns
    }

    /// The window rebuilt from saved parts: `None` unless `current_n` is the
    /// total of `shares` and at most `n`, as it is in every saved window.
    pub fn restore(shares: Vec<Share>, current_n: u64, n: u64) -> (pplns: Option<Self>)
        ensures
            match pplns {
                Some(p) => {
                    &&& p.wf()
                    &&& p@ == share_views(shares@)
                    &&& p.window() == n
                    &&& p.current() == current_n
                },
                None => total_value(share_views(shares@)) != current_n
                    || current_n > n,
            },
    {
        let ghost all = share_views(shares@);
        let mut queue: VecDeque<Share> = VecDeque::new();
        let mut sum: u64 = 0;
        let mut i: usize = 0;
        while i < shares.len()
            invariant
                i <= shares@.len(),
                all == share_views(shares@),
                share_views(queue@) == all.subrange(0, i as int),
                sum == total_value(all.subrange(0, i as int)),
            decreases shares@.len() - i,
        {
            proof {
                lemma_total_push(all.subrange(0, i as int), shares@[i as int]@);
                assert(all.subrange(0, i as int).push(shares@[i as int]@) =~= all.subrange(0, i + 1));
            }
            match sum.checked_add(shares[i].value) {
                Some(next) => sum = next,
                None => {
                    proof {
                        lemma_total_prefix_bound(all, i + 1);
                    }
                    return None;
                },
            }
            queue.push_back(shares[i].duplicate());
            i = i + 1;
            assert(share_views(queue@) =~= all.subrange(0, i as int));
        }
        assert(all.subrange(0, i as int) =~= all);
        if sum != current_n || current_n > n {
            return None;
        }
        Some(PPLNS { queue, current_n, n })
    }

    /// A copy of the shares in the window, oldest first.
    pub fn shares(&self) -> (shares: Vec<Share>)
        ensures
            share_views(shares@) == self@,
    {
        let mut out: Vec<Share> = Vec::new();
        let mut i: usize = 0;
        while i < self.queue.len()
            invariant
                i <= self.queue@.len(),
                share_views(out@) == self@.subrange(0, i as int),
            decreases self.queue@.len() - i,
        {
            let copy = self.queue[i].duplicate();
            let ghost prev = out@;
            let ghost seen = copy@;
            assert(seen == self@[i as int]);
            out.push(copy);
            assert(out@ == prev.push(out@.last()));
            assert(share_views(out@) =~= share_views(prev).push(seen));
            i = i + 1;
            assert(share_views(out@) =~= self@.subrange(0, i as int));
        }
        assert(self@.subrange(0, i as int) =~= self@);
        out
    }

    /// The running total of the window.
    pub fn current_n(&self) -> (current_n: u64)
        ensures
            current_n == self.current(),
    {
        self.current_n
    }

    /// The window size N.
    pub fn n(&self) -> (n: u64)
        ensures
            n == self.window(),
    {
        self.n
    }

    /// Drops the oldest shares while the total exceeds N.
    fn trim(&mut self)
        requires
            old(self).current_n == total_value(old(self)@),
        ensures
            final(self).wf(),
            final(self)@ == trim_to(old(self)@, old(self).window()),
            final(self).n == old(self).n,
    {
        let ghost n = self.n as nat;
        let ghost target = trim_to(self@, n);
        while self.current_n > self.n
            invariant
                self.n == n,
                self.current_n == total_value(self@),
                trim_to(self@, n) == target,
            decreases self.queue@.len(),
        {
            let ghost before = self@;
            proof {
                if before.len() == 0 {
                    assert(total_value(before) == 0);
                }
                lemma_total_drop_first(before);
            }
            let share = self.queue.pop_front().unwrap();
            assert(self@ =~= before.drop_first());
            self.current_n = self.current_n - share.value;
        }
        proof {
            lemma_trim_small(self@, n);
        }
    }

    /// Adds a share, then drops the oldest shares while the total exceeds N.
    pub fn add_share(&mut self, share: Share)
        requires
            old(self).wf(),
            old(self).current() + share.value <= u64::MAX,
        ensures
            final(self).wf(),
            final(self).window() == old(self).window(),
            final(self)@ == trim_to(old(self)@.push(share@), old(self).window()),
    {
        let ghost before = self@;
        let value = share.value;
        self.queue.push_back(share);
        assert(self@ =~= before.push(share@));
        proof {
            lemma_total_push(before, share@);
        }
        self.current_n = self.current_n + value;
        self.trim();
    }

    /// Sets the window size to `n`, dropping the oldest shares while the
    /// total exceeds it.
    pub fn set_n(&mut self, n: u64)
        requires
            old(self).wf(),
        ensures
            final(self).wf(),
            final(self).window() == n,
            final(self)@ == trim_to(old(self)@, n as nat),
    {
        if n < self.n {
            self.n = n;
            self.trim();
        } else {
            self.n = n;
            proof {
                lemma_trim_small(self@, n as nat);
            }
        }
    }
}

/// Finds the position of `owner` among the totals' owners.
fn find_owner(totals: &Vec<(String, u64)>, owner: &String) -> (pos: Option<usize>)
    ensures
        match pos {
            Some(j) => j < totals@.len() && owners_of(totals@)[j as int] == owner@,
            None => !owners_of(totals@).contains(owner@),
        },
{
    let mut j: usize = 0;
    while j < totals.len()
        invariant
            j <= totals@.len(),
            forall|k: int| 0 <= k < j ==> owners_of(totals@)[k] != owner@,
        decreases totals@.len() - j,
    {
        if totals[j].0 == *owner {
            return Some(j);
        }
        j = j + 1;
    }
    proof {
        if owners_of(totals@).contains(owner@) {
            let k = choose|k: int| 0 <= k < owners_of(totals@).len() && owners_of(totals@)[k] == owner@;
            assert(owners_of(totals@)[k] != owner@);
        }
    }
    None
}

proof fn lemma_owner_totals_push(shares: Seq<ShareView>, share: ShareView)
    ensures
        owner_totals(shares.push(share)) == owner_totals(shares).insert(
            share.owner,
            (if owner_totals(shares).contains_key(share.owner) {
                owner_totals(shares)[share.owner]
            } else {
                0
            } + share.value) as nat,
        ),
{
    assert(shares.push(share).drop_last() =~= shares);
}

/// The provers' part of the window: how many distinct provers hold shares
/// in it, and each prover's total, each prover named once.
pub fn pplns_to_provers_shares(pplns: &PPLNS) -> (result: (u32, Vec<(String, u64)>))
    requires
        pplns.wf(),
    ensures
        lists_totals(result.1@, owner_totals(pplns@)),
        result.0 == #[verifier::truncate] (result.1@.len() as u32),
{
    let ghost all = pplns@;
    let mut totals: Vec<(String, u64)> = Vec::new();
    let mut i: usize = 0;
    let len = pplns.queue.len();
    proof {
        assert(owners_of(totals@) =~= Seq::<Seq<char>>::empty());
        assert(all.subrange(0, 0) =~= Seq::<ShareView>::empty());
        assert(owner_totals(all.subrange(0, 0)) =~= Map::<Seq<char>, nat>::empty());
    }
    while i < len
        invariant
            len == pplns.queue@.len(),
            all == pplns@,
            pplns.wf(),
            i <= len,
            lists_totals(totals@, owner_totals(all.subrange(0, i as int))),
            forall|o: Seq<char>|
                #[trigger] owner_totals(all.subrange(0, i as int)).contains_key(o)
                    ==> owner_totals(all.subrange(0, i as int))[o] <= total_value(
                    all.subrange(0, i as int),
                ),
        decreases len - i,
    {
        let share = &pplns.queue[i];
        let ghost sv = all[i as int];
        assert(share@ == sv);
        let ghost prefix = all.subrange(0, i as int);
        let ghost next = all.subrange(0, i + 1);
        let ghost before = owner_totals(prefix);
        proof {
            assert(next =~= prefix.push(sv));
            lemma_owner_totals_push(prefix, sv);
            lemma_total_push(prefix, sv);
            lemma_total_prefix_bound(all, i + 1);
        }
        let ghost old_totals = totals@;
        match find_owner(&totals, &share.owner) {
            Some(j) => {
                assert(owners_of(old_totals).contains(sv.owner));
                assert(totals@[j as int].1 == before[sv.owner]);
                let updated = (totals[j].0.clone(), totals[j].1 + share.value);
                totals.set(j, updated);
                proof {
                    assert(owners_of(totals@) =~= owners_of(old_totals));
                    assert forall|k: int| 0 <= k < totals@.len() implies #[trigger] totals@[k].1
                        == owner_totals(next)[totals@[k].0@] by {
                        if k != j {
                            assert(owners_of(old_totals)[k] != owners_of(old_totals)[j as int]);
                        }
                    }
                }
            },
            None => {
                assert(!before.contains_key(sv.owner));
                totals.push((share.owner.clone(), share.value));
                proof {
                    assert(owners_of(totals@) =~= owners_of(old_totals).push(sv.owner));
                    assert forall|o: Seq<char>| owner_totals(next).contains_key(o) <==> #[trigger] owners_of(
                        totals@,
                    ).contains(o) by {
                        if o != sv.owner {
                            if owners_of(old_totals).contains(o) {
                                let k = choose|k: int| 0 <= k < old_totals.len() && owners_of(old_totals)[k] == o;
                                assert(owners_of(totals@)[k] == o);
                            }
                            if owners_of(totals@).contains(o) {
                                let k = choose|k: int| 0 <= k < totals@.len() && owners_of(totals@)[k] == o;
                                assert(owners_of(old_totals)[k] == o);
                            }
                        } else {
                            assert(owners_of(totals@)[old_totals.len() as int] == o);
                        }
                    }
                    assert forall|k: int| 0 <= k < totals@.len() implies #[trigger] totals@[k].1
                        == owner_totals(next)[totals@[k].0@] by {
                        if k < old_totals.len() {
                            assert(owners_of(old_totals)[k] != sv.owner);
                        }
                    }
                }
            },
        }
        i = i + 1;
    }
    assert(all.subrange(0, len as int) =~= all);
    let count = #[verifier::truncate] (totals.len() as u32);
    (count, totals)
}

/// The window and its size after one accounting message: a new share is
/// added and the oldest dropped while the total exceeds N; a new N drops
/// the oldest while the total exceeds it; a solution or an exit leaves the
/// window as it is.
pub open spec fn window_step(shares: Seq<ShareView>, n: nat, message: AccountingMessage) -> (
    Seq<ShareView>,
    nat,
) {
    match message {
        AccountingMessage::NewShare(owner, value) => (
            trim_to(shares.push(ShareView { value, owner: owner@ }), n),
            n,
        ),
        AccountingMessage::SetN(new_n) => (trim_to(shares, new_n as nat), new_n as nat),
        _ => (shares, n),
    }
}

/// The window and its size after a run of accounting messages, applied in
/// order.
pub open spec fn window_after(shares: Seq<ShareView>, n: nat, messages: Seq<AccountingMessage>) -> (
    Seq<ShareView>,
    nat,
)
    decreases messages.len(),
{
    if messages.len() == 0 {
        (shares, n)
    } else {
        let (next, next_n) = window_step(shares, n, messages[0]);
        window_after(next, next_n, messages.drop_first())
    }
}

impl PPLNS {
    /// Applies one accounting message to the window and says what is left
    /// to do: a new share is added, a new N is set, a solution takes a
    /// snapshot of the provers' shares, and exit asks for the window to be
    /// saved.
    pub fn handle(&mut self, message: AccountingMessage) -> (action: AccountingAction)
        requires
            old(self).wf(),
            message matches AccountingMessage::NewShare(_, value) ==> old(self).current() + value
                <= u64::MAX,
        ensures
            final(self).wf(),
            (final(self)@, final(self).window() as nat) == window_step(
                old(self)@,
                old(self).window(),
                message,
            ),
            match message {
                AccountingMessage::NewShare(owner, value) => {
                    &&& final(self)@ == trim_to(
                        old(self)@.push(ShareView { value, owner: owner@ }),
                        old(self).window(),
                    )
                    &&& final(self).window() == old(self).window()
                    &&& action is Done
                },
                AccountingMessage::SetN(n) => {
                    &&& final(self)@ == trim_to(old(self)@, n as nat)
                    &&& final(self).window() == n
                    &&& action is Done
                },
                AccountingMessage::NewSolution(commitment) => {
                    &&& *final(self) == *old(self)
                    &&& action matches AccountingAction::RecordSolution(c, count, totals) && c@
                        == commitment@ && count == totals@.len() as u32 && lists_totals(
                        totals@,
                        owner_totals(old(self)@),
                    )
                },
                AccountingMessage::Exit => *final(self) == *old(self) && action is SaveAndExit,
            },
    {
        match message {
            AccountingMessage::NewShare(owner, value) => {
                self.add_share(Share::init(value, owner));
                AccountingAction::Done
            },
            AccountingMessage::SetN(n) => {
                self.set_n(n);
                AccountingAction::Done
            },
            AccountingMessage::NewSolution(commitment) => {
                let (count, totals) = pplns_to_provers_shares(self);
                AccountingAction::RecordSolution(commitment, count, totals)
            },
            AccountingMessage::Exit => AccountingAction::SaveAndExit,
        }
    }
}

/// PPLNS law: the window after a new share is the longest run of the most
/// recent shares whose total is at most N. It is a suffix of the shares with
/// the new one last, its total is at most N, and either nothing was dropped
/// or keeping one more of the dropped shares would exceed N.
pub proof fn law_window_is_longest_fitting_suffix(shares: Seq<ShareView>, n: nat)
    ensures
        ({
            let kept = trim_to(shares, n);
            let dropped = shares.len() - kept.len();
            &&& kept.len() <= shares.len()
            &&& kept == shares.subrange(dropped, shares.len() as int)
            &&& total_value(kept) <= n
            &&& dropped > 0 ==> total_value(shares.subrange(dropped - 1, shares.len() as int)) > n
        }),
    decreases shares.len(),
{
    lemma_trim_bound(shares, n);
    if total_value(shares) <= n || shares.len() == 0 {
        assert(shares.subrange(0, shares.len() as int) =~= shares);
    } else {
        let rest = shares.drop_first();
        law_window_is_longest_fitting_suffix(rest, n);
        let kept = trim_to(rest, n);
        let dropped_rest = rest.len() - kept.len();
        assert(rest.subrange(dropped_rest, rest.len() as int) =~= shares.subrange(
            dropped_rest + 1,
            shares.len() as int,
        ));
        if dropped_rest == 0 {
            assert(shares.subrange(0, shares.len() as int) =~= shares);
        } else {
            assert(rest.subrange(dropped_rest - 1, rest.len() as int) =~= shares.subrange(
                dropped_rest,
                shares.len() as int,
            ));
        }
    }
}

/// PPLNS law: every operation keeps the running total equal to the total of
/// the shares in the window, and at most N.
pub proof fn law_total_within_window(pplns: PPLNS, share: ShareView, n: nat)
    requires
        pplns.wf(),
    ensures
        total_value(trim_to(pplns@.push(share), pplns.window())) <= pplns.window(),
        total_value(trim_to(pplns@, n)) <= n,
        total_value(pplns@) == pplns.current(),
        pplns.current() <= pplns.window(),
{
    lemma_trim_bound(pplns@.push(share), pplns.window());
    lemma_trim_bound(pplns@, n);
}

/// PPLNS law: a window that fits in N keeps every share when N is set to
/// any larger value.
pub proof fn law_raising_n_keeps_shares(shares: Seq<ShareView>, old_n: nat, n: nat)
    requires
        total_value(shares) <= old_n,
        old_n <= n,
    ensures
        trim_to(shares, n) == shares,
{
}

/// PPLNS law: applying a run of messages and then another run gives the
/// window that applying the two runs in one does; so the window the
/// accounting keeps after any messages is the one `window_after` gives.
pub proof fn law_messages_compose(
    shares: Seq<ShareView>,
    n: nat,
    first: Seq<AccountingMessage>,
    then: Seq<AccountingMessage>,
)
    ensures
        ({
            let (mid, mid_n) = window_after(shares, n, first);
            window_after(mid, mid_n, then)
        }) == window_after(shares, n, first + then),
    decreases first.len(),
{
    if first.len() > 0 {
        let (next, next_n) = window_step(shares, n, first[0]);
        law_messages_compose(next, next_n, first.drop_first(), then);
        assert((first + then).drop_first() =~= first.drop_first() + then);
    } else {
        assert(first + then =~= then);
    }
}

/// PPLNS law: a solution or an exit leaves the window and its size as they
/// are.
pub proof fn law_solution_leaves_window(shares: Seq<ShareView>, n: nat, commitment: String)
    ensures
        window_step(shares, n, AccountingMessage::NewSolution(commitment)) == (shares, n),
        window_step(shares, n, AccountingMessage::Exit) == (shares, n),
{
}

} // verus!
