use std::sync::mpsc::{Receiver, Sender};
use vstd::prelude::*;

use crate::channel::{poll_package, send_item, take_queued, wait_package};

verus! {

/// The messages that actors exchange over the bus.
#[derive(Clone, Copy, Debug, PartialEq, Eq, Structural)]
pub enum Message {
    ToggleClicker,
    SetInterval { subinterval_millis: u64, subinterval_count: u64 },
    Shutdown,
    ToggleKeybind(bool),
}

/// A message tagged with the number of the mailbox that sent it; number 0
/// stands for the owner of the bus itself.
#[derive(Clone, Copy, Debug, PartialEq, Eq, Structural)]
pub struct Package {
    pub sender_number: usize,
    pub message: Message,
}

impl Message {
    pub fn package(self, sender_number: usize) -> (p: Package)
        ensures
            p == (Package { sender_number, message: self }),
    {
        Package { sender_number, message: self }
    }
}

/// Index of the first package in `s` that another mailbox than `id` sent,
/// or `s.len()` when there is none.
pub open spec fn first_foreign(id: usize, s: Seq<Package>) -> int
    decreases s.len(),
{
    if s.len() == 0 {
        0
    } else if s[0].sender_number != id {
        0
    } else {
        1 + first_foreign(id, s.drop_first())
    }
}

/// A mailbox never hands its owner a package that it sent itself: every
/// package skipped before the one handed out came from the mailbox, and the
/// one handed out came from elsewhere.
pub proof fn lemma_no_self_echo(id: usize, s: Seq<Package>)
    ensures
        0 <= first_foreign(id, s) <= s.len(),
        forall|j: int| 0 <= j < first_foreign(id, s) ==> s[j].sender_number == id,
        first_foreign(id, s) < s.len() ==> s[first_foreign(id, s)].sender_number != id,
    decreases s.len(),
{
    if s.len() > 0 && s[0].sender_number == id {
        lemma_no_self_echo(id, s.drop_first());
        assert forall|j: int| 0 <= j < first_foreign(id, s) implies s[j].sender_number == id by {
            if j > 0 {
                assert(s[j] == s.drop_first()[j - 1]);
            }
        }
    }
}

/// Which package comes out first of two queues joined: the first queue's
/// first foreign package if it has one, else the second queue's.
proof fn lemma_first_foreign_append(id: usize, s: Seq<Package>, t: Seq<Package>)
    ensures
        first_foreign(id, s + t) == (if first_foreign(id, s) < s.len() {
            first_foreign(id, s)
        } else {
            s.len() + first_foreign(id, t)
        }),
    decreases s.len(),
{
    lemma_no_self_echo(id, s);
    if s.len() == 0 {
        assert(s + t =~= t);
    } else {
        assert((s + t)[0] == s[0]);
        if s[0].sender_number == id {
            assert((s + t).drop_first() =~= s.drop_first() + t);
            lemma_first_foreign_append(id, s.drop_first(), t);
        }
    }
}

/// What a receive hands out from the queue `all`, and the queue `rest` it
/// leaves: the first package that another mailbox than `id` sent, with the
/// packages after it left queued; or nothing, with the queue emptied.
pub open spec fn receive_outcome(id: usize, all: Seq<Package>, r: Option<Message>, rest: Seq<Package>) -> bool {
    let k = first_foreign(id, all);
    if k < all.len() {
        r == Some(all[k].message) && rest == all.subrange(k + 1, all.len() as int)
    } else {
        r is None && rest == Seq::<Package>::empty()
    }
}

/// The message in a receive's result, if any.
pub open spec fn received(r: Result<Option<Message>, ()>) -> Option<Message> {
    match r {
        Ok(o) => o,
        Err(_) => None,
    }
}

/// What one non-blocking look at the bus's end of a mailbox found.
pub enum Polled {
    Ready(Package),
    Empty,
    Closed,
}

/// The packages that a poll brought.
pub open spec fn polled_packages(p: Polled) -> Seq<Package> {
    match p {
        Polled::Ready(package) => seq![package],
        _ => Seq::<Package>::empty(),
    }
}

/// What actors hand to the bus: a new subscriber's endpoint, or a package to
/// fan out.
pub enum Submission {
    Subscribe(Sender<Package>),
    Post(Package),
}

/// An actor's handle on the bus.
pub struct Mailbox {
    mailbox_number: usize,
    sender: Sender<Submission>,
    receiver: Receiver<Package>,
    pending: Vec<Package>,
    taken: Ghost<Seq<Package>>,
    sent: Ghost<Seq<Package>>,
}

impl Mailbox {
    /// The number that tags what this mailbox sends.
    pub closed spec fn number(&self) -> usize {
        self.mailbox_number
    }

    /// Packages already taken from the bus and not yet handed out.
    pub closed spec fn queued(&self) -> Seq<Package> {
        self.pending@
    }

    /// Every package taken from the bus so far, in the order it came.
    pub closed spec fn taken(&self) -> Seq<Package> {
        self.taken@
    }

    /// Every package that the bus accepted from this mailbox, in order.
    pub closed spec fn sent(&self) -> Seq<Package> {
        self.sent@
    }

    pub fn new(mailbox_number: usize, sender: Sender<Submission>, receiver: Receiver<Package>) -> (mb:
        Mailbox)
        ensures
            mb.number() == mailbox_number,
            mb.queued() == Seq::<Package>::empty(),
            mb.taken() == Seq::<Package>::empty(),
            mb.sent() == Seq::<Package>::empty(),
    {
        Mailbox {
            mailbox_number,
            sender,
            receiver,
            pending: Vec::new(),
            taken: Ghost(Seq::empty()),
            sent: Ghost(Seq::empty()),
        }
    }

    pub fn mailbox_number(&self) -> (n: usize)
        ensures
            n == self.number(),
    {
        self.mailbox_number
    }

    /// The package that `broadcast` submits for `message`.
    pub fn envelope(&self, message: Message) -> (p: Package)
        ensures
            p == (Package { sender_number: self.number(), message }),
    {
        message.package(self.mailbox_number)
    }

    /// Submits `message`, tagged with this mailbox's number, to the bus.
    /// Fails only when the bus is gone.
    pub fn broadcast(&mut self, message: Message) -> (r: Result<(), ()>)
        ensures
            final(self).number() == old(self).number(),
            final(self).queued() == old(self).queued(),
            final(self).taken() == old(self).taken(),
            final(self).sent() == (if r is Ok {
                old(self).sent().push(Package { sender_number: old(self).number(), message })
            } else {
                old(self).sent()
            }),
    {
        let package = self.envelope(message);
        if send_item(&self.sender, Submission::Post(package)) {
            self.sent = Ghost(self.sent@.push(package));
            Ok(())
        } else {
            Err(())
        }
    }

    /// Hands out the first queued package that another mailbox sent, and
    /// discards the packages of this mailbox that came before it.
    pub fn take_foreign(&mut self) -> (r: Option<Message>)
        ensures
            final(self).number() == old(self).number(),
            final(self).taken() == old(self).taken(),
            final(self).sent() == old(self).sent(),
            receive_outcome(old(self).number(), old(self).queued(), r, final(self).queued()),
    {
        let ghost s = self.pending@;
        let ghost id = self.mailbox_number;
        proof {
            lemma_no_self_echo(id, s);
        }
        let ghost mut consumed: int = 0;
        while self.pending.len() > 0
            invariant
                self.mailbox_number == id,
                id == old(self).mailbox_number,
                self.taken == old(self).taken,
                self.sent == old(self).sent,
                s == old(self).pending@,
                0 <= first_foreign(id, s) <= s.len(),
                0 <= consumed <= s.len(),
                self.pending@ == s.subrange(consumed, s.len() as int),
                first_foreign(id, s) == consumed + first_foreign(id, self.pending@),
            decreases self.pending.len(),
        {
            let ghost before = self.pending@;
            let p = self.pending.remove(0);
            proof {
                assert(before.drop_first() == self.pending@);
                assert(self.pending@ == s.subrange(consumed + 1, s.len() as int));
            }
            if p.sender_number != self.mailbox_number {
                assert(s[consumed] == before[0]);
                assert(first_foreign(id, before) == 0);
                return Some(p.message);
            }
            proof {
                consumed = consumed + 1;
            }
        }
        assert(self.pending@ == Seq::<Package>::empty());
        None
    }

    /// Takes in what one look at the bus found, then hands out as a receive
    /// does. `Err` only when the bus is gone and nothing foreign is queued.
    pub fn take_polled(&mut self, polled: Polled) -> (r: Result<Option<Message>, ()>)
        ensures
            final(self).number() == old(self).number(),
            final(self).sent() == old(self).sent(),
            final(self).taken() == old(self).taken() + polled_packages(polled),
            receive_outcome(
                old(self).number(),
                old(self).queued() + polled_packages(polled),
                received(r),
                final(self).queued(),
            ),
            r is Err <==> (polled is Closed && first_foreign(
                old(self).number(),
                old(self).queued(),
            ) == old(self).queued().len()),
    {
        let closed = match polled {
            Polled::Ready(p) => {
                self.pending.push(p);
                self.taken = Ghost(self.taken@.push(p));
                false
            },
            Polled::Empty => false,
            Polled::Closed => true,
        };
        assert(self.pending@ =~= old(self).pending@ + polled_packages(polled));
        assert(self.taken@ =~= old(self).taken@ + polled_packages(polled));
        proof {
            lemma_no_self_echo(self.mailbox_number, old(self).pending@);
            if polled is Closed || polled is Empty {
                assert(self.pending@ =~= old(self).pending@);
            }
        }
        match self.take_foreign() {
            Some(m) => Ok(Some(m)),
            None => if closed {
                Err(())
            } else {
                Ok(None)
            },
        }
    }

    /// Non-blocking receive: the next message that another mailbox sent, or
    /// `None` once no such message is queued. Packages that this mailbox sent
    /// are dropped on the way. Fails only when the bus is gone.
    pub fn try_recv(&mut self) -> (r: Result<Option<Message>, ()>)
        ensures
            final(self).number() == old(self).number(),
            final(self).sent() == old(self).sent(),
            final(self).taken().len() >= old(self).taken().len(),
            final(self).taken().subrange(0, old(self).taken().len() as int) == old(self).taken(),
            receive_outcome(
                old(self).number(),
                old(self).queued() + final(self).taken().subrange(
                    old(self).taken().len() as int,
                    final(self).taken().len() as int,
                ),
                received(r),
                final(self).queued(),
            ),
    {
        let ghost q = self.pending@;
        let ghost t0 = self.taken@;
        let ghost id = self.mailbox_number;
        let mut fresh = take_queued(&self.receiver);
        let ghost f = fresh@;
        self.pending.append(&mut fresh);
        self.taken = Ghost(self.taken@ + f);
        match self.take_foreign() {
            Some(m) => {
                assert(self.taken@.subrange(t0.len() as int, self.taken@.len() as int) =~= f);
                assert(self.taken@.subrange(0, t0.len() as int) =~= t0);
                Ok(Some(m))
            },
            None => {
                let polled = poll_package(&self.receiver);
                let ghost add = polled_packages(polled);
                let r = self.take_polled(polled);
                proof {
                    assert(self.taken@ =~= t0 + (f + add));
                    assert(self.taken@.subrange(t0.len() as int, self.taken@.len() as int) =~= f + add);
                    assert(self.taken@.subrange(0, t0.len() as int) =~= t0);
                    let qf = q + f;
                    lemma_no_self_echo(id, qf);
                    lemma_no_self_echo(id, add);
                    lemma_first_foreign_append(id, qf, add);
                    assert(q + (f + add) =~= qf + add);
                    assert(Seq::<Package>::empty() + add =~= add);
                    let k = first_foreign(id, add);
                    if k < add.len() {
                        assert((qf + add)[qf.len() + k] == add[k]);
                        assert((qf + add).subrange(qf.len() + k + 1, (qf + add).len() as int)
                            =~= add.subrange(k + 1, add.len() as int));
                    }
                }
                r
            },
        }
    }

    /// Blocks until the bus delivers one more package, and queues it. Fails
    /// only when the bus is gone.
    pub fn wait_for_package(&mut self) -> (r: Result<(), ()>)
        ensures
            final(self).number() == old(self).number(),
            final(self).sent() == old(self).sent(),
            r is Ok ==> exists|p: Package|
                final(self).queued() == old(self).queued().push(p) && final(self).taken()
                    == old(self).taken().push(p),
            r is Err ==> final(self).queued() == old(self).queued() && final(self).taken()
                == old(self).taken(),
    {
        match wait_package(&self.receiver) {
            Some(p) => {
                self.pending.push(p);
                self.taken = Ghost(self.taken@.push(p));
                assert(self.queued() == old(self).queued().push(p));
                Ok(())
            },
            None => Err(()),
        }
    }
}

/// The messages of the packages in `s` that another mailbox than `id` sent,
/// in order.
pub open spec fn foreign_messages(id: usize, s: Seq<Package>) -> Seq<Message>
    decreases s.len(),
{
    if s.len() == 0 {
        Seq::<Message>::empty()
    } else if s[0].sender_number != id {
        seq![s[0].message] + foreign_messages(id, s.drop_first())
    } else {
        foreign_messages(id, s.drop_first())
    }
}

/// What receives hand out at a mailbox: each receive takes the next foreign
/// message off the front of what is still owed, so successive receives hand
/// out the foreign packages taken from the bus in the order they came, each
/// exactly once, and never one that the mailbox sent itself.
pub proof fn lemma_receive_in_order(id: usize, all: Seq<Package>, r: Option<Message>, rest: Seq<Package>)
    requires
        receive_outcome(id, all, r, rest),
    ensures
        foreign_messages(id, all) == (match r {
            Some(m) => seq![m],
            None => Seq::<Message>::empty(),
        }) + foreign_messages(id, rest),
    decreases all.len(),
{
    lemma_no_self_echo(id, all);
    if all.len() == 0 {
        assert(Seq::<Message>::empty() + Seq::<Message>::empty() =~= Seq::<Message>::empty());
    } else if all[0].sender_number != id {
        assert(all.subrange(1, all.len() as int) =~= all.drop_first());
    } else {
        let d = all.drop_first();
        lemma_no_self_echo(id, d);
        let k = first_foreign(id, all);
        if k < all.len() {
            assert(all[k] == d[k - 1]);
            assert(all.subrange(k + 1, all.len() as int) =~= d.subrange(k, d.len() as int));
        }
        assert(receive_outcome(id, d, r, rest));
        lemma_receive_in_order(id, d, r, rest);
    }
}

/// Hands out mailbox numbers: 1, 2, 3, ... in order, never 0 (kept for the
/// bus's owner) and never twice.
pub struct MailboxNumbers {
    next: usize,
}

impl MailboxNumbers {
    /// The number that the next mailbox gets.
    pub closed spec fn upcoming(&self) -> usize {
        self.next
    }

    pub fn new() -> (n: MailboxNumbers)
        ensures
            n.upcoming() == 1,
    {
        MailboxNumbers { next: 1 }
    }

    /// The next number, or `None` once every number is spent.
    pub fn next_number(&mut self) -> (r: Option<usize>)
        requires
            old(self).upcoming() >= 1,
        ensures
            final(self).upcoming() >= 1,
            old(self).upcoming() < usize::MAX ==> r == Some(old(self).upcoming())
                && final(self).upcoming() == old(self).upcoming() + 1,
            old(self).upcoming() == usize::MAX ==> r is None
                && final(self).upcoming() == old(self).upcoming(),
    {
        if self.next == usize::MAX {
            None
        } else {
            let n = self.next;
            self.next = n + 1;
            Some(n)
        }
    }
}

/// One subscriber's endpoint on the bus, with the packages that the bus has
/// handed to it so far.
pub struct Listener {
    endpoint: Sender<Package>,
    delivered: Ghost<Seq<Package>>,
}

/// `kept` picks, in increasing order, positions below `n`.
pub open spec fn kept_in_order(kept: Seq<int>, n: int) -> bool {
    &&& forall|i: int, j: int| 0 <= i < j < kept.len() ==> #[trigger] kept[i] < #[trigger] kept[j]
    &&& forall|i: int| 0 <= i < kept.len() ==> 0 <= #[trigger] kept[i] < n
}

/// The listeners at the positions `kept` of `before` stayed, in their order,
/// and each of them got `package` once more.
pub open spec fn fanned_out_by(
    before: Seq<Seq<Package>>,
    after: Seq<Seq<Package>>,
    package: Package,
    kept: Seq<int>,
) -> bool {
    &&& kept_in_order(kept, before.len() as int)
    &&& kept.len() == after.len()
    &&& forall|j: int| 0 <= j < after.len() ==> after[j] == before[kept[j]].push(package)
}

/// One dispatch of `package` led from the delivery logs `before` to `after`:
/// listeners are only ever dropped, never reordered, and each one left got
/// `package` exactly once.
pub open spec fn fanned_out(before: Seq<Seq<Package>>, after: Seq<Seq<Package>>, package: Package) -> bool {
    exists|kept: Seq<int>| fanned_out_by(before, after, package, kept)
}

/// The dispatch loop goes on until it has seen a subscription and has no
/// listener left.
pub open spec fn keeps_running(started: bool, listeners: nat) -> bool {
    !started || listeners > 0
}

/// The bus's dispatch state: owned by its single dispatch loop.
pub struct PostOffice {
    started: bool,
    listeners: Vec<Listener>,
}

impl PostOffice {
    pub closed spec fn is_started(&self) -> bool {
        self.started
    }

    /// What each current listener has been handed, in subscription order.
    pub closed spec fn logs(&self) -> Seq<Seq<Package>> {
        self.listeners@.map_values(|l: Listener| l.delivered@)
    }

    pub fn new() -> (po: PostOffice)
        ensures
            !po.is_started(),
            po.logs() == Seq::<Seq<Package>>::empty(),
    {
        PostOffice { started: false, listeners: Vec::new() }
    }

    /// Registers a new listener; the bus counts as started from now on.
    pub fn subscribe(&mut self, endpoint: Sender<Package>)
        ensures
            final(self).is_started(),
            final(self).logs() == old(self).logs().push(Seq::<Package>::empty()),
    {
        self.listeners.push(Listener { endpoint, delivered: Ghost(Seq::empty()) });
        self.started = true;
        assert(self.logs() =~= old(self).logs().push(Seq::<Package>::empty()));
    }

    pub fn listener_count(&self) -> (n: usize)
        ensures
            n == self.logs().len(),
    {
        self.listeners.len()
    }

    /// Whether the dispatch loop takes another package.
    pub fn is_running(&self) -> (r: bool)
        ensures
            r == keeps_running(self.is_started(), self.logs().len()),
    {
        !self.started || self.listeners.len() > 0
    }

    /// Hands `package` to every listener in turn, and drops each listener
    /// whose owner is gone.
    pub fn handle_package(&mut self, package: Package)
        ensures
            final(self).is_started() == old(self).is_started(),
            fanned_out(old(self).logs(), final(self).logs(), package),
    {
        let mut waiting: Vec<Listener> = Vec::new();
        std::mem::swap(&mut self.listeners, &mut waiting);
        let ghost before = old(self).logs();
        let ghost n = waiting@.len();
        let ghost mut kept: Seq<int> = Seq::empty();
        let ghost mut i: int = 0;
        assert(before.len() == n);
        while waiting.len() > 0
            invariant
                self.started == old(self).started,
                before == old(self).logs(),
                before.len() == n,
                0 <= i <= n,
                waiting@.len() == n - i,
                forall|k: int| 0 <= k < waiting@.len() ==> waiting@[k].delivered@ == before[i + k],
                kept_in_order(kept, i),
                kept.len() == self.listeners@.len(),
                forall|j: int|
                    0 <= j < kept.len() ==> self.listeners@[j].delivered@ == before[kept[j]].push(
                        package,
                    ),
            decreases waiting.len(),
        {
            let ghost rest = waiting@;
            let mut listener = waiting.remove(0);
            assert(listener.delivered@ == before[i]);
            assert forall|k: int| 0 <= k < waiting@.len() implies waiting@[k].delivered@ == before[i
                + 1 + k] by {
                assert(waiting@[k] == rest[k + 1]);
            }
            if send_item(&listener.endpoint, package) {
                listener.delivered = Ghost(listener.delivered@.push(package));
                self.listeners.push(listener);
                proof {
                    kept = kept.push(i);
                }
            }
            proof {
                i = i + 1;
            }
        }
        assert(fanned_out_by(before, self.logs(), package, kept));
    }
}

impl PostOffice {
    /// Takes one submission: registers a subscriber, or fans a package out.
    pub fn handle(&mut self, submission: Submission)
        ensures
            match submission {
                Submission::Subscribe(_) => final(self).is_started() && final(self).logs()
                    == old(self).logs().push(Seq::<Package>::empty()),
                Submission::Post(package) => final(self).is_started() == old(self).is_started()
                    && fanned_out(old(self).logs(), final(self).logs(), package),
            },
    {
        match submission {
            Submission::Subscribe(endpoint) => self.subscribe(endpoint),
            Submission::Post(package) => self.handle_package(package),
        }
    }
}

/// Total order of fan-out: two packages dispatched one after the other reach
/// every listener that is still there after both, first before second.
pub proof fn lemma_fan_out_order(
    a: Seq<Seq<Package>>,
    b: Seq<Seq<Package>>,
    c: Seq<Seq<Package>>,
    first: Package,
    second: Package,
)
    requires
        fanned_out(a, b, first),
        fanned_out(b, c, second),
    ensures
        exists|kept: Seq<int>|
            {
                &&& kept_in_order(kept, a.len() as int)
                &&& kept.len() == c.len()
                &&& forall|j: int|
                    0 <= j < c.len() ==> #[trigger] c[j] == a[kept[j]].push(first).push(second)
            },
{
    let k1 = choose|k: Seq<int>| fanned_out_by(a, b, first, k);
    let k2 = choose|k: Seq<int>| fanned_out_by(b, c, second, k);
    let kept = Seq::new(c.len(), |j: int| k1[k2[j]]);
    assert forall|i: int, j: int| 0 <= i < j < kept.len() implies kept[i] < kept[j] by {
        assert(k2[i] < k2[j]);
    }
    assert forall|j: int| 0 <= j < c.len() implies #[trigger] c[j] == a[kept[j]].push(first).push(
        second,
    ) by {
        assert(c[j] == b[k2[j]].push(second));
        assert(b[k2[j]] == a[k1[k2[j]]].push(first));
    }
    assert(kept_in_order(kept, a.len() as int));
}

/// Multicast completeness: a dispatched package reaches each listener that
/// is still there exactly once, as the last entry of its log; and the
/// mailbox of every subscriber but the sender hands it out.
pub proof fn lemma_multicast_once(
    before: Seq<Seq<Package>>,
    after: Seq<Seq<Package>>,
    package: Package,
    receiver: usize,
)
    requires
        fanned_out(before, after, package),
        receiver != package.sender_number,
    ensures
        exists|kept: Seq<int>|
            {
                &&& kept_in_order(kept, before.len() as int)
                &&& kept.len() == after.len()
                &&& forall|j: int|
                    0 <= j < after.len() ==> (#[trigger] after[j]).len() == before[kept[j]].len() + 1
                        && after[j].subrange(before[kept[j]].len() as int, after[j].len() as int)
                        == seq![package]
            },
        first_foreign(receiver, seq![package]) == 0,
        first_foreign(package.sender_number, seq![package]) == 1,
{
    let kept = choose|k: Seq<int>| fanned_out_by(before, after, package, k);
    assert forall|j: int| 0 <= j < after.len() implies (#[trigger] after[j]).len() == before[kept[j]].len()
        + 1 && after[j].subrange(before[kept[j]].len() as int, after[j].len() as int) == seq![package] by {
        assert(after[j].subrange(before[kept[j]].len() as int, after[j].len() as int) =~= seq![package]);
    }
    assert(seq![package].drop_first() =~= Seq::<Package>::empty());
    assert(first_foreign(package.sender_number, Seq::<Package>::empty()) == 0);
}

/// Bus termination: a bus that never had a subscription keeps running with
/// no listeners; one that had one stops once its listeners are all gone.
pub proof fn lemma_bus_termination(po: PostOffice)
    ensures
        !po.is_started() ==> keeps_running(po.is_started(), po.logs().len()),
        po.is_started() && po.logs().len() == 0 ==> !keeps_running(po.is_started(), po.logs().len()),
        keeps_running(false, 0),
        !keeps_running(true, 0),
{
}

/// The foreign messages of two queues joined are those of the first, then
/// those of the second.
proof fn lemma_foreign_messages_append(id: usize, s: Seq<Package>, t: Seq<Package>)
    ensures
        foreign_messages(id, s + t) == foreign_messages(id, s) + foreign_messages(id, t),
    decreases s.len(),
{
    if s.len() == 0 {
        assert(s + t =~= t);
        assert(Seq::<Message>::empty() + foreign_messages(id, t) =~= foreign_messages(id, t));
    } else {
        assert((s + t)[0] == s[0]);
        assert((s + t).drop_first() =~= s.drop_first() + t);
        lemma_foreign_messages_append(id, s.drop_first(), t);
        if s[0].sender_number != id {
            assert(seq![s[0].message] + (foreign_messages(id, s.drop_first()) + foreign_messages(id, t))
                =~= (seq![s[0].message] + foreign_messages(id, s.drop_first())) + foreign_messages(id, t));
        }
    }
}

/// What a mailbox numbered `id` is owed for one more package in its log:
/// the package's message once if another mailbox sent it, nothing if it sent
/// the package itself.
proof fn lemma_owed_after_push(id: usize, s: Seq<Package>, p: Package)
    ensures
        foreign_messages(id, s.push(p)) == foreign_messages(id, s) + (if p.sender_number != id {
            seq![p.message]
        } else {
            Seq::<Message>::empty()
        }),
{
    assert(s.push(p) =~= s + seq![p]);
    lemma_foreign_messages_append(id, s, seq![p]);
    assert(seq![p].drop_first() =~= Seq::<Package>::empty());
    assert(foreign_messages(id, Seq::<Package>::empty()) == Seq::<Message>::empty());
    assert(seq![p.message] + Seq::<Message>::empty() =~= seq![p.message]);
    assert(foreign_messages(id, s) + Seq::<Message>::empty() =~= foreign_messages(id, s));
}

/// Multicast completeness, from the bus to the mailbox: after one dispatch,
/// every listener still there is owed the package's message exactly once
/// more by its mailbox's receives, unless that mailbox sent it, in which case
/// it is owed nothing more.
pub proof fn lemma_multicast_received_once(
    before: Seq<Seq<Package>>,
    after: Seq<Seq<Package>>,
    package: Package,
    id: usize,
)
    requires
        fanned_out(before, after, package),
    ensures
        exists|kept: Seq<int>|
            {
                &&& kept_in_order(kept, before.len() as int)
                &&& kept.len() == after.len()
                &&& forall|j: int|
                    0 <= j < after.len() ==> #[trigger] foreign_messages(id, after[j]) == foreign_messages(
                        id,
                        before[kept[j]],
                    ) + (if package.sender_number != id {
                        seq![package.message]
                    } else {
                        Seq::<Message>::empty()
                    })
            },
{
    let kept = choose|k: Seq<int>| fanned_out_by(before, after, package, k);
    assert forall|j: int| 0 <= j < after.len() implies #[trigger] foreign_messages(id, after[j])
        == foreign_messages(id, before[kept[j]]) + (if package.sender_number != id {
        seq![package.message]
    } else {
        Seq::<Message>::empty()
    }) by {
        lemma_owed_after_push(id, before[kept[j]], package);
    }
}

/// Total order from the bus to the mailbox: when one mailbox's two packages
/// are dispatched one after the other, every other subscriber still there
/// after both is owed the first message and then the second, after whatever
/// it was owed before.
pub proof fn lemma_order_received(
    a: Seq<Seq<Package>>,
    b: Seq<Seq<Package>>,
    c: Seq<Seq<Package>>,
    first: Package,
    second: Package,
    id: usize,
)
    requires
        fanned_out(a, b, first),
        fanned_out(b, c, second),
        first.sender_number != id,
        second.sender_number != id,
    ensures
        exists|kept: Seq<int>|
            {
                &&& kept_in_order(kept, a.len() as int)
                &&& kept.len() == c.len()
                &&& forall|j: int|
                    0 <= j < c.len() ==> #[trigger] foreign_messages(id, c[j]) == foreign_messages(
                        id,
                        a[kept[j]],
                    ) + seq![first.message, second.message]
            },
{
    lemma_fan_out_order(a, b, c, first, second);
    let kept = choose|k: Seq<int>|
        {
            &&& kept_in_order(k, a.len() as int)
            &&& k.len() == c.len()
            &&& forall|j: int| 0 <= j < c.len() ==> #[trigger] c[j] == a[k[j]].push(first).push(second)
        };
    assert forall|j: int| 0 <= j < c.len() implies #[trigger] foreign_messages(id, c[j])
        == foreign_messages(id, a[kept[j]]) + seq![first.message, second.message] by {
        let s = a[kept[j]];
        assert(c[j] == s.push(first).push(second));
        lemma_owed_after_push(id, s, first);
        lemma_owed_after_push(id, s.push(first), second);
        assert(foreign_messages(id, s) + seq![first.message] + seq![second.message]
            =~= foreign_messages(id, s) + seq![first.message, second.message]);
    }
}

} // verus!
