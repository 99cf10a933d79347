//! The client registry: the single source of truth for which users are
//! connected and which share requests await each of them.
//!
//! A registry is a sequence of client records with pairwise-distinct
//! usernames. Every operation is a whole-registry transition, meant to be
//! run under one exclusive lock by the surrounding server, so that the
//! check and the mutation of an operation form one critical section.
use vstd::prelude::*;

verus! {

/// An error a registry operation reports; the session turns it into a
/// reply and the connection stays open.
#[derive(Debug, Clone, Copy, PartialEq, Eq, Structural)]
pub enum RegistryError {
    /// `register`: the name is already held by a connected client.
    AlreadyTaken,
    /// `add_request`: the recipient is not currently registered.
    NoSuchUser,
    /// `resolve_request`: no pending request matches.
    NotFound,
}

/// A recorded offer from `sender` to send the file named `filename`,
/// `size` bytes long, to whoever holds the queue it sits in.
#[derive(Debug, PartialEq, Eq)]
pub struct ShareRequest {
    pub sender: String,
    pub filename: String,
    pub size: u64,
}

/// Mathematical image of a [`ShareRequest`].
pub struct ShareRequestV {
    pub sender: Seq<char>,
    pub filename: Seq<char>,
    pub size: u64,
}

impl View for ShareRequest {
    type V = ShareRequestV;

    open spec fn view(&self) -> ShareRequestV {
        ShareRequestV { sender: self.sender@, filename: self.filename@, size: self.size }
    }
}

impl ShareRequest {
    /// A field-for-field copy.
    pub fn duplicate(&self) -> (r: ShareRequest)
        ensures
            r@ == self@,
    {
        ShareRequest {
            sender: self.sender.clone(),
            filename: self.filename.clone(),
            size: self.size,
        }
    }
}

/// One connected, registered client: its name, where it connected from,
/// and the share requests waiting for it, in arrival order.
pub struct ClientRecord {
    pub username: String,
    pub peer_address: String,
    pub pending: Vec<ShareRequest>,
}

/// Mathematical image of a [`ClientRecord`].
pub struct ClientRecordV {
    pub username: Seq<char>,
    pub peer_address: Seq<char>,
    pub pending: Seq<ShareRequestV>,
}

/// The images of a sequence of requests.
pub open spec fn reqs_view(s: Seq<ShareRequest>) -> Seq<ShareRequestV> {
    Seq::new(s.len(), |i: int| s[i]@)
}

impl View for ClientRecord {
    type V = ClientRecordV;

    open spec fn view(&self) -> ClientRecordV {
        ClientRecordV {
            username: self.username@,
            peer_address: self.peer_address@,
            pending: reqs_view(self.pending@),
        }
    }
}

/// The images of a sequence of records.
pub open spec fn recs_view(s: Seq<ClientRecord>) -> Seq<ClientRecordV> {
    Seq::new(s.len(), |i: int| s[i]@)
}

/// Whether some record holds the name.
pub open spec fn has_user(s: Seq<ClientRecordV>, name: Seq<char>) -> bool {
    exists|i: int| 0 <= i < s.len() && s[i].username == name
}

/// The index of the record holding the name; meaningful under
/// [`distinct_usernames`] when [`has_user`] holds.
pub open spec fn user_index(s: Seq<ClientRecordV>, name: Seq<char>) -> int {
    choose|i: int| 0 <= i < s.len() && s[i].username == name
}

/// No two records share a username.
pub open spec fn distinct_usernames(s: Seq<ClientRecordV>) -> bool {
    forall|i: int, j: int| 0 <= i < j < s.len() ==> s[i].username != s[j].username
}

/// The record a fresh registration makes: no pending requests yet.
pub open spec fn new_record(name: Seq<char>, peer: Seq<char>) -> ClientRecordV {
    ClientRecordV { username: name, peer_address: peer, pending: Seq::empty() }
}

/// What a successful registration does: append the fresh record.
pub open spec fn spec_register(s: Seq<ClientRecordV>, name: Seq<char>, peer: Seq<char>) -> Seq<
    ClientRecordV,
> {
    s.push(new_record(name, peer))
}

/// A queue with every request from the given sender removed.
pub open spec fn spec_purge(p: Seq<ShareRequestV>, name: Seq<char>) -> Seq<ShareRequestV>
    decreases p.len(),
{
    if p.len() == 0 {
        Seq::empty()
    } else if p[0].sender == name {
        spec_purge(p.drop_first(), name)
    } else {
        seq![p[0]] + spec_purge(p.drop_first(), name)
    }
}

/// A record with every request from the given sender removed.
pub open spec fn purge_record(rec: ClientRecordV, name: Seq<char>) -> ClientRecordV {
    ClientRecordV { pending: spec_purge(rec.pending, name), ..rec }
}

/// What disconnect cleanup does: drop the name's own record and, in the
/// same step, every request it sent that still waits elsewhere.
pub open spec fn spec_unregister(s: Seq<ClientRecordV>, name: Seq<char>) -> Seq<ClientRecordV>
    decreases s.len(),
{
    if s.len() == 0 {
        Seq::empty()
    } else if s[0].username == name {
        spec_unregister(s.drop_first(), name)
    } else {
        seq![purge_record(s[0], name)] + spec_unregister(s.drop_first(), name)
    }
}

/// The usernames on record, in order, without the caller's own.
pub open spec fn spec_others(s: Seq<ClientRecordV>, me: Seq<char>) -> Seq<Seq<char>>
    decreases s.len(),
{
    if s.len() == 0 {
        Seq::empty()
    } else if s[0].username == me {
        spec_others(s.drop_first(), me)
    } else {
        seq![s[0].username] + spec_others(s.drop_first(), me)
    }
}

/// How many records hold the name.
pub open spec fn count_user(s: Seq<ClientRecordV>, name: Seq<char>) -> nat
    decreases s.len(),
{
    if s.len() == 0 {
        0
    } else {
        (if s[0].username == name {
            1nat
        } else {
            0nat
        }) + count_user(s.drop_first(), name)
    }
}

/// Whether some request in the queue came from the given sender.
pub open spec fn has_request(p: Seq<ShareRequestV>, from: Seq<char>) -> bool {
    exists|j: int| 0 <= j < p.len() && p[j].sender == from
}

/// The index of the earliest request from the given sender; meaningful
/// when [`has_request`] holds.
pub open spec fn first_request(p: Seq<ShareRequestV>, from: Seq<char>) -> int
    decreases p.len(),
{
    if p.len() == 0 {
        0
    } else if p[0].sender == from {
        0
    } else {
        1 + first_request(p.drop_first(), from)
    }
}

/// The queue awaiting a user, or empty if the user is not on record.
pub open spec fn pending_of(s: Seq<ClientRecordV>, owner: Seq<char>) -> Seq<ShareRequestV> {
    if has_user(s, owner) {
        s[user_index(s, owner)].pending
    } else {
        Seq::empty()
    }
}

/// What queuing a share request for `to` does: append it to that record's
/// pending queue.
pub open spec fn spec_add_request(
    s: Seq<ClientRecordV>,
    to: Seq<char>,
    req: ShareRequestV,
) -> Seq<ClientRecordV> {
    let i = user_index(s, to);
    s.update(i, ClientRecordV { pending: s[i].pending.push(req), ..s[i] })
}

/// What resolving a request does: remove the earliest pending request from
/// the given sender out of the owner's queue.
pub open spec fn spec_resolve(s: Seq<ClientRecordV>, owner: Seq<char>, from: Seq<char>) -> Seq<
    ClientRecordV,
> {
    let i = user_index(s, owner);
    let j = first_request(s[i].pending, from);
    s.update(i, ClientRecordV { pending: s[i].pending.remove(j), ..s[i] })
}

/// The images of a sequence of names.
pub open spec fn names_view(s: Seq<String>) -> Seq<Seq<char>> {
    Seq::new(s.len(), |i: int| s[i]@)
}

/// The table of connected users and their pending share requests.
pub struct Registry {
    records: Vec<ClientRecord>,
}

impl View for Registry {
    type V = Seq<ClientRecordV>;

    closed spec fn view(&self) -> Seq<ClientRecordV> {
        recs_view(self.records@)
    }
}

impl Registry {
    /// The registry's invariant: usernames are unique.
    pub open spec fn wf(&self) -> bool {
        distinct_usernames(self@)
    }

    /// An empty registry: nobody is connected.
    pub fn new() -> (r: Registry)
        ensures
            r@ == Seq::<ClientRecordV>::empty(),
            r.wf(),
    {
        let r = Registry { records: Vec::new() };
        assert(r@ =~= Seq::<ClientRecordV>::empty());
        r
    }

    /// The index of the record holding the name, if any.
    fn find_index(&self, name: &String) -> (r: Option<usize>)
        ensures
            match r {
                Some(i) => i < self@.len() && self@[i as int].username == name@,
                None => !has_user(self@, name@),
            },
    {
        let n = self.records.len();
        let mut i: usize = 0;
        while i < n
            invariant
                i <= n,
                n == self.records@.len(),
                forall|k: int| 0 <= k < i ==> self@[k].username != name@,
            decreases n - i,
        {
            if self.records[i].username == *name {
                return Some(i);
            }
            i += 1;
        }
        None
    }

    /// Whether the name is currently registered.
    pub fn is_registered(&self, name: &String) -> (b: bool)
        ensures
            b == has_user(self@, name@),
    {
        match self.find_index(name) {
            Some(_) => true,
            None => false,
        }
    }

    /// Atomic check-and-insert: claims the name, or reports it taken and
    /// changes nothing.
    pub fn register(&mut self, username: String, peer_address: String) -> (r: Result<
        (),
        RegistryError,
    >)
        requires
            old(self).wf(),
        ensures
            final(self).wf(),
            has_user(old(self)@, username@) ==> r === Err(RegistryError::AlreadyTaken)
                && final(self)@ == old(self)@,
            !has_user(old(self)@, username@) ==> r === Ok(()) && final(self)@ == spec_register(
                old(self)@,
                username@,
                peer_address@,
            ),
    {
        match self.find_index(&username) {
            Some(_) => Err(RegistryError::AlreadyTaken),
            None => {
                let ghost prior = self@;
                let ghost namev = username@;
                let ghost peerv = peer_address@;
                self.records.push(
                    ClientRecord { username, peer_address, pending: Vec::new() },
                );
                proof {
                    assert(self@[prior.len() as int].pending =~= Seq::<ShareRequestV>::empty());
                    assert(self@ =~= spec_register(prior, namev, peerv));
                }
                Ok(())
            },
        }
    }

    /// Removes the name's record and, in the same step, every request it
    /// sent that still waits in another client's queue. Unknown names are
    /// a no-op.
    pub fn unregister(&mut self, name: &String)
        requires
            old(self).wf(),
        ensures
            final(self).wf(),
            final(self)@ == spec_unregister(old(self)@, name@),
    {
        let ghost s0 = self@;
        let n = self.records.len();
        let mut out: Vec<ClientRecord> = Vec::new();
        let mut i: usize = 0;
        proof {
            assert(recs_view(out@) =~= Seq::<ClientRecordV>::empty());
            assert(s0.skip(0) =~= s0);
            assert(recs_view(out@) + spec_unregister(s0, name@) =~= spec_unregister(s0, name@));
        }
        while i < n
            invariant
                i <= n,
                n == self.records@.len(),
                self@ == s0,
                self.records@.len() == s0.len(),
                recs_view(out@) + spec_unregister(s0.skip(i as int), name@) == spec_unregister(
                    s0,
                    name@,
                ),
            decreases n - i,
        {
            let ghost pre = recs_view(out@);
            let ghost tail = s0.skip(i as int);
            proof {
                assert(tail[0] == s0[i as int]);
                assert(tail.drop_first() =~= s0.skip(i as int + 1));
            }
            let rec = &self.records[i];
            assert(rec@ == s0[i as int]);
            if rec.username == *name {
                assert(spec_unregister(tail, name@) == spec_unregister(
                    tail.drop_first(),
                    name@,
                ));
            } else {
                let kept = ClientRecord {
                    username: rec.username.clone(),
                    peer_address: rec.peer_address.clone(),
                    pending: purge_vec(&rec.pending, name),
                };
                proof {
                    assert(kept@ == purge_record(s0[i as int], name@));
                }
                out.push(kept);
                proof {
                    assert(recs_view(out@) =~= pre.push(purge_record(s0[i as int], name@)));
                    assert(spec_unregister(tail, name@) == seq![purge_record(tail[0], name@)]
                        + spec_unregister(tail.drop_first(), name@));
                    assert(pre.push(purge_record(tail[0], name@)) + spec_unregister(
                        tail.drop_first(),
                        name@,
                    ) =~= pre + spec_unregister(tail, name@));
                }
            }
            i += 1;
        }
        proof {
            assert(s0.skip(n as int) =~= Seq::<ClientRecordV>::empty());
            assert(recs_view(out@) + Seq::<ClientRecordV>::empty() =~= recs_view(out@));
            lemma_unregister_wf(s0, name@);
        }
        self.records = out;
    }

    /// A snapshot of the registered names other than the caller's, in
    /// registration order.
    pub fn list_others(&self, me: &String) -> (r: Vec<String>)
        ensures
            names_view(r@) == spec_others(self@, me@),
    {
        let ghost s0 = self@;
        let n = self.records.len();
        let mut out: Vec<String> = Vec::new();
        let mut i: usize = 0;
        proof {
            assert(names_view(out@) =~= Seq::<Seq<char>>::empty());
            assert(s0.skip(0) =~= s0);
            assert(names_view(out@) + spec_others(s0, me@) =~= spec_others(s0, me@));
        }
        while i < n
            invariant
                i <= n,
                n == self.records@.len(),
                self@ == s0,
                names_view(out@) + spec_others(s0.skip(i as int), me@) == spec_others(s0, me@),
            decreases n - i,
        {
            let ghost pre = names_view(out@);
            let ghost tail = s0.skip(i as int);
            proof {
                assert(tail[0] == s0[i as int]);
                assert(tail.drop_first() =~= s0.skip(i as int + 1));
            }
            let rec = &self.records[i];
            assert(rec@ == s0[i as int]);
            if rec.username == *me {
                assert(spec_others(tail, me@) == spec_others(tail.drop_first(), me@));
            } else {
                out.push(rec.username.clone());
                proof {
                    assert(names_view(out@) =~= pre.push(s0[i as int].username));
                    assert(spec_others(tail, me@) == seq![tail[0].username] + spec_others(
                        tail.drop_first(),
                        me@,
                    ));
                    assert(pre.push(tail[0].username) + spec_others(tail.drop_first(), me@) =~= pre
                        + spec_others(tail, me@));
                }
            }
            i += 1;
        }
        proof {
            assert(s0.skip(n as int) =~= Seq::<ClientRecordV>::empty());
            assert(names_view(out@) + Seq::<Seq<char>>::empty() =~= names_view(out@));
        }
        out
    }

    /// A snapshot of the caller's queued incoming requests, in arrival
    /// order; empty if the caller is not on record.
    pub fn list_pending(&self, me: &String) -> (r: Vec<ShareRequest>)
        requires
            self.wf(),
        ensures
            reqs_view(r@) == pending_of(self@, me@),
    {
        match self.find_index(me) {
            None => {
                let r: Vec<ShareRequest> = Vec::new();
                assert(reqs_view(r@) =~= Seq::<ShareRequestV>::empty());
                r
            },
            Some(i) => {
                proof {
                    let k = user_index(self@, me@);
                    assert(self@[k].username == me@);
                    assert(k == i as int);
                }
                let rec = &self.records[i];
                let m = rec.pending.len();
                let mut out: Vec<ShareRequest> = Vec::new();
                let mut j: usize = 0;
                while j < m
                    invariant
                        j <= m,
                        m == rec.pending@.len(),
                        out@.len() == j,
                        forall|k: int| 0 <= k < j ==> out@[k]@ == rec.pending@[k]@,
                    decreases m - j,
                {
                    out.push(rec.pending[j].duplicate());
                    j += 1;
                }
                assert(reqs_view(out@) =~= reqs_view(rec.pending@));
                out
            },
        }
    }

    /// Appends a share request to the recipient's queue, or reports that
    /// no such user is connected and changes nothing.
    pub fn add_request(&mut self, to: &String, request: ShareRequest) -> (r: Result<
        (),
        RegistryError,
    >)
        requires
            old(self).wf(),
        ensures
            final(self).wf(),
            !has_user(old(self)@, to@) ==> r === Err(RegistryError::NoSuchUser) && final(self)@
                == old(self)@,
            has_user(old(self)@, to@) ==> r === Ok(()) && final(self)@ == spec_add_request(
                old(self)@,
                to@,
                request@,
            ),
    {
        let ghost s0 = self@;
        match self.find_index(to) {
            None => Err(RegistryError::NoSuchUser),
            Some(i) => {
                proof {
                    let k = user_index(s0, to@);
                    assert(s0[k].username == to@);
                    assert(k == i as int);
                }
                let ghost reqv = request@;
                let mut rec = self.records.remove(i);
                let ghost mid = rec.pending@;
                rec.pending.push(request);
                proof {
                    assert(reqs_view(rec.pending@) =~= reqs_view(mid).push(reqv));
                    assert(rec@ == ClientRecordV {
                        pending: s0[i as int].pending.push(reqv),
                        ..s0[i as int]
                    });
                }
                self.records.insert(i, rec);
                proof {
                    assert(self@ =~= spec_add_request(s0, to@, reqv));
                    assert forall|a: int, b: int|
                        0 <= a < b < self@.len() implies self@[a].username
                        != self@[b].username by {
                        assert(self@[a].username == s0[a].username);
                        assert(self@[b].username == s0[b].username);
                    }
                }
                Ok(())
            },
        }
    }

    /// Removes and returns the earliest pending request from `from` in
    /// `owner`'s queue; reports `NotFound` and changes nothing when there
    /// is none. Whether the owner accepted or declined is the caller's
    /// business: either way the request leaves the registry.
    #[allow(unused_variables)]
    pub fn resolve_request(&mut self, owner: &String, from: &String, accept: bool) -> (r: Result<
        ShareRequest,
        RegistryError,
    >)
        requires
            old(self).wf(),
        ensures
            final(self).wf(),
            !(has_user(old(self)@, owner@) && has_request(pending_of(old(self)@, owner@), from@))
                ==> r === Err(RegistryError::NotFound) && final(self)@ == old(self)@,
            (has_user(old(self)@, owner@) && has_request(pending_of(old(self)@, owner@), from@))
                ==> (r matches Ok(req) && req@ == pending_of(old(self)@, owner@)[first_request(
                pending_of(old(self)@, owner@),
                from@,
            )] && final(self)@ == spec_resolve(old(self)@, owner@, from@)),
    {
        let ghost s0 = self@;
        match self.find_index(owner) {
            None => Err(RegistryError::NotFound),
            Some(i) => {
                proof {
                    let k = user_index(s0, owner@);
                    assert(s0[k].username == owner@);
                    assert(k == i as int);
                }
                let ghost p = s0[i as int].pending;
                let found = find_request(&self.records[i].pending, from);
                assert(reqs_view(self.records@[i as int].pending@) == p);
                match found {
                    None => {
                        assert(!has_request(p, from@));
                        Err(RegistryError::NotFound)
                    },
                    Some(f) => {
                        proof {
                            assert(has_request(p, from@));
                            lemma_first_request(p, from@);
                            let fr = first_request(p, from@);
                            if fr < f as int {
                                assert(p[fr].sender == from@);
                            }
                            if fr > f as int {
                                assert(p[f as int].sender != from@);
                            }
                            assert(fr == f as int);
                        }
                        let mut rec = self.records.remove(i);
                        let req = rec.pending.remove(f);
                        proof {
                            assert(reqs_view(rec.pending@) =~= p.remove(f as int));
                            assert(rec@ == ClientRecordV {
                                pending: p.remove(f as int),
                                ..s0[i as int]
                            });
                        }
                        self.records.insert(i, rec);
                        proof {
                            assert(self@ =~= spec_resolve(s0, owner@, from@));
                            assert forall|a: int, b: int|
                                0 <= a < b < self@.len() implies self@[a].username
                                != self@[b].username by {
                                assert(self@[a].username == s0[a].username);
                                assert(self@[b].username == s0[b].username);
                            }
                        }
                        Ok(req)
                    },
                }
            },
        }
    }
}

/// The index of the earliest request from the given sender, if any.
fn find_request(p: &Vec<ShareRequest>, from: &String) -> (r: Option<usize>)
    ensures
        match r {
            Some(j) => j < p@.len() && reqs_view(p@)[j as int].sender == from@ && forall|k: int|
                0 <= k < j ==> reqs_view(p@)[k].sender != from@,
            None => !has_request(reqs_view(p@), from@),
        },
{
    let n = p.len();
    let mut j: usize = 0;
    while j < n
        invariant
            j <= n,
            n == p@.len(),
            forall|k: int| 0 <= k < j ==> reqs_view(p@)[k].sender != from@,
        decreases n - j,
    {
        if p[j].sender == *from {
            return Some(j);
        }
        j += 1;
    }
    None
}

/// Where the earliest request from a sender sits: within bounds, from that
/// sender, with nothing from the sender before it.
pub proof fn lemma_first_request(p: Seq<ShareRequestV>, from: Seq<char>)
    requires
        has_request(p, from),
    ensures
        0 <= first_request(p, from) < p.len(),
        p[first_request(p, from)].sender == from,
        forall|k: int| 0 <= k < first_request(p, from) ==> p[k].sender != from,
    decreases p.len(),
{
    if p.len() == 0 {
    } else if p[0].sender == from {
    } else {
        let rest = p.drop_first();
        assert(has_request(rest, from)) by {
            let j = choose|j: int| 0 <= j < p.len() && p[j].sender == from;
            assert(rest[j - 1].sender == from);
        }
        lemma_first_request(rest, from);
        let fr = first_request(p, from);
        assert(fr == 1 + first_request(rest, from));
        assert(p[fr] == rest[fr - 1]);
        assert forall|k: int| 0 <= k < fr implies p[k].sender != from by {
            if k > 0 {
                assert(p[k] == rest[k - 1]);
            }
        }
    }
}

/// A copy of the queue without the requests from the given sender.
fn purge_vec(p: &Vec<ShareRequest>, name: &String) -> (r: Vec<ShareRequest>)
    ensures
        reqs_view(r@) == spec_purge(reqs_view(p@), name@),
{
    let ghost p0 = reqs_view(p@);
    let n = p.len();
    let mut out: Vec<ShareRequest> = Vec::new();
    let mut i: usize = 0;
    proof {
        assert(reqs_view(out@) =~= Seq::<ShareRequestV>::empty());
        assert(p0.skip(0) =~= p0);
        assert(reqs_view(out@) + spec_purge(p0, name@) =~= spec_purge(p0, name@));
    }
    while i < n
        invariant
            i <= n,
            n == p@.len(),
            p0 == reqs_view(p@),
            reqs_view(out@) + spec_purge(p0.skip(i as int), name@) == spec_purge(p0, name@),
        decreases n - i,
    {
        let ghost pre = reqs_view(out@);
        let ghost tail = p0.skip(i as int);
        proof {
            assert(tail[0] == p0[i as int]);
            assert(tail.drop_first() =~= p0.skip(i as int + 1));
        }
        if p[i].sender == *name {
            assert(spec_purge(tail, name@) == spec_purge(tail.drop_first(), name@));
        } else {
            out.push(p[i].duplicate());
            proof {
                assert(reqs_view(out@) =~= pre.push(p0[i as int]));
                assert(spec_purge(tail, name@) == seq![tail[0]] + spec_purge(
                    tail.drop_first(),
                    name@,
                ));
                assert(pre.push(tail[0]) + spec_purge(tail.drop_first(), name@) =~= pre
                    + spec_purge(tail, name@));
            }
        }
        i += 1;
    }
    proof {
        assert(p0.skip(n as int) =~= Seq::<ShareRequestV>::empty());
        assert(reqs_view(out@) + Seq::<ShareRequestV>::empty() =~= reqs_view(out@));
    }
    out
}

/// Splitting the first record off a username search.
proof fn lemma_has_user_unfold(s: Seq<ClientRecordV>, m: Seq<char>)
    requires
        s.len() > 0,
    ensures
        has_user(s, m) <==> (s[0].username == m || has_user(s.drop_first(), m)),
{
    let rest = s.drop_first();
    if has_user(s, m) {
        let i = choose|i: int| 0 <= i < s.len() && s[i].username == m;
        if i > 0 {
            assert(rest[i - 1].username == m);
        }
    }
    if has_user(rest, m) {
        let j = choose|j: int| 0 <= j < rest.len() && rest[j].username == m;
        assert(s[j + 1].username == m);
    }
}

/// Uniqueness of names survives dropping the first record.
proof fn lemma_wf_drop_first(s: Seq<ClientRecordV>)
    requires
        distinct_usernames(s),
        s.len() > 0,
    ensures
        distinct_usernames(s.drop_first()),
{
    let rest = s.drop_first();
    assert forall|i: int, j: int| 0 <= i < j < rest.len() implies rest[i].username
        != rest[j].username by {
        assert(rest[i] == s[i + 1]);
        assert(rest[j] == s[j + 1]);
    }
}

/// Law: after cleanup of a name, a user is on record exactly when it was
/// before and is not that name. In particular the name itself is gone.
pub proof fn lemma_unregister_users(s: Seq<ClientRecordV>, name: Seq<char>, m: Seq<char>)
    ensures
        has_user(spec_unregister(s, name), m) <==> (m != name && has_user(s, m)),
    decreases s.len(),
{
    if s.len() == 0 {
    } else {
        let rest = s.drop_first();
        lemma_unregister_users(rest, name, m);
        lemma_has_user_unfold(s, m);
        if s[0].username == name {
        } else {
            let u = spec_unregister(s, name);
            assert(u == seq![purge_record(s[0], name)] + spec_unregister(rest, name));
            assert(u.len() > 0 && u[0].username == s[0].username);
            assert(u.drop_first() =~= spec_unregister(rest, name));
            lemma_has_user_unfold(u, m);
        }
    }
}

/// Uniqueness of names survives cleanup.
proof fn lemma_unregister_wf(s: Seq<ClientRecordV>, name: Seq<char>)
    requires
        distinct_usernames(s),
    ensures
        distinct_usernames(spec_unregister(s, name)),
    decreases s.len(),
{
    if s.len() == 0 {
    } else {
        let rest = s.drop_first();
        lemma_wf_drop_first(s);
        lemma_unregister_wf(rest, name);
        if s[0].username == name {
        } else {
            let u = spec_unregister(s, name);
            let t = spec_unregister(rest, name);
            assert(u == seq![purge_record(s[0], name)] + t);
            assert(!has_user(rest, s[0].username)) by {
                if has_user(rest, s[0].username) {
                    let j = choose|j: int|
                        0 <= j < rest.len() && rest[j].username == s[0].username;
                    assert(s[j + 1].username == s[0].username);
                }
            }
            lemma_unregister_users(rest, name, s[0].username);
            assert forall|i: int, j: int| 0 <= i < j < u.len() implies u[i].username
                != u[j].username by {
                if i == 0 {
                    assert(u[j] == t[j - 1]);
                    assert(!has_user(t, s[0].username));
                    assert(0 <= j - 1 < t.len() && t[j - 1].username == u[j].username);
                } else {
                    assert(u[i] == t[i - 1]);
                    assert(u[j] == t[j - 1]);
                }
            }
        }
    }
}

/// Law: after cleanup of a name, no request from that sender remains
/// anywhere in the registry.
pub proof fn lemma_purge_no_sender(p: Seq<ShareRequestV>, name: Seq<char>)
    ensures
        forall|j: int|
            0 <= j < spec_purge(p, name).len() ==> (#[trigger] spec_purge(p, name)[j]).sender
                != name,
    decreases p.len(),
{
    if p.len() == 0 {
    } else {
        lemma_purge_no_sender(p.drop_first(), name);
        if p[0].sender == name {
        } else {
            let q = spec_purge(p, name);
            assert forall|j: int| 0 <= j < q.len() implies (#[trigger] q[j]).sender != name by {
                if j > 0 {
                    assert(q[j] == spec_purge(p.drop_first(), name)[j - 1]);
                }
            }
        }
    }
}

/// Law: disconnect cleanup leaves no request whose sender is the departed
/// name, in any remaining record.
pub proof fn lemma_unregister_purges(s: Seq<ClientRecordV>, name: Seq<char>)
    ensures
        forall|i: int, j: int|
            0 <= i < spec_unregister(s, name).len() && 0 <= j < spec_unregister(
                s,
                name,
            )[i].pending.len() ==> (#[trigger] spec_unregister(s, name)[i].pending[j]).sender
                != name,
    decreases s.len(),
{
    if s.len() == 0 {
    } else {
        let rest = s.drop_first();
        lemma_unregister_purges(rest, name);
        if s[0].username == name {
            assert(spec_unregister(s, name) == spec_unregister(rest, name));
            assert forall|i: int, j: int|
                0 <= i < spec_unregister(s, name).len() && 0 <= j < spec_unregister(
                    s,
                    name,
                )[i].pending.len() implies (
            #[trigger] spec_unregister(s, name)[i].pending[j]).sender != name by {
                assert(spec_unregister(rest, name)[i].pending[j].sender != name);
            }
        } else {
            let u = spec_unregister(s, name);
            let t = spec_unregister(rest, name);
            lemma_purge_no_sender(s[0].pending, name);
            assert forall|i: int, j: int|
                0 <= i < u.len() && 0 <= j < u[i].pending.len() implies (
            #[trigger] u[i].pending[j]).sender != name by {
                if i == 0 {
                    assert(u[0] == purge_record(s[0], name));
                    assert(u[0].pending == spec_purge(s[0].pending, name));
                    assert(spec_purge(s[0].pending, name)[j].sender != name);
                } else {
                    assert(u[i] == t[i - 1]);
                    assert(t[i - 1].pending[j].sender != name);
                }
            }
        }
    }
}

/// Purging a queue twice is the same as purging it once.
pub proof fn lemma_purge_idempotent(p: Seq<ShareRequestV>, name: Seq<char>)
    ensures
        spec_purge(spec_purge(p, name), name) == spec_purge(p, name),
    decreases p.len(),
{
    if p.len() == 0 {
    } else {
        lemma_purge_idempotent(p.drop_first(), name);
        if p[0].sender == name {
        } else {
            let q = spec_purge(p, name);
            assert(q == seq![p[0]] + spec_purge(p.drop_first(), name));
            assert(q.len() > 0 && q[0] == p[0]);
            assert(q.drop_first() =~= spec_purge(p.drop_first(), name));
            assert(spec_purge(q, name) == seq![q[0]] + spec_purge(q.drop_first(), name));
        }
    }
}

/// Law: running disconnect cleanup for a name that is already gone changes
/// nothing; unregistering twice equals unregistering once.
pub proof fn lemma_unregister_idempotent(s: Seq<ClientRecordV>, name: Seq<char>)
    ensures
        spec_unregister(spec_unregister(s, name), name) == spec_unregister(s, name),
    decreases s.len(),
{
    if s.len() == 0 {
    } else {
        let rest = s.drop_first();
        lemma_unregister_idempotent(rest, name);
        if s[0].username == name {
        } else {
            let u = spec_unregister(s, name);
            let h = purge_record(s[0], name);
            assert(u == seq![h] + spec_unregister(rest, name));
            assert(u.len() > 0 && u[0] == h);
            assert(u.drop_first() =~= spec_unregister(rest, name));
            lemma_purge_idempotent(s[0].pending, name);
            assert(purge_record(h, name) == h);
            assert(spec_unregister(u, name) == seq![purge_record(h, name)] + spec_unregister(
                u.drop_first(),
                name,
            ));
        }
    }
}

/// How a username count changes when a record is appended.
proof fn lemma_count_user_push(s: Seq<ClientRecordV>, r: ClientRecordV, name: Seq<char>)
    ensures
        count_user(s.push(r), name) == count_user(s, name) + (if r.username == name {
            1nat
        } else {
            0nat
        }),
    decreases s.len(),
{
    if s.len() == 0 {
        assert(s.push(r).drop_first() =~= Seq::<ClientRecordV>::empty());
        assert(s.push(r)[0] == r);
        assert(count_user(s, name) == 0);
        assert(count_user(s.push(r).drop_first(), name) == 0);
        assert(count_user(s.push(r), name) == (if r.username == name {
            1nat
        } else {
            0nat
        }) + count_user(s.push(r).drop_first(), name));
    } else {
        assert(s.push(r).drop_first() =~= s.drop_first().push(r));
        assert(s.push(r)[0] == s[0]);
        lemma_count_user_push(s.drop_first(), r, name);
        assert(count_user(s.push(r), name) == (if s[0].username == name {
            1nat
        } else {
            0nat
        }) + count_user(s.drop_first().push(r), name));
        assert(count_user(s, name) == (if s[0].username == name {
            1nat
        } else {
            0nat
        }) + count_user(s.drop_first(), name));
    }
}

/// A name nobody holds is counted zero times.
proof fn lemma_count_user_zero(s: Seq<ClientRecordV>, name: Seq<char>)
    requires
        !has_user(s, name),
    ensures
        count_user(s, name) == 0,
    decreases s.len(),
{
    if s.len() == 0 {
    } else {
        lemma_has_user_unfold(s, name);
        lemma_count_user_zero(s.drop_first(), name);
    }
}

/// Law: once a free name has been registered, the name is on record — so a
/// second attempt is refused with `AlreadyTaken` and changes nothing, by
/// the contract of `register` — and exactly one record holds it.
pub proof fn lemma_register_exclusive(s: Seq<ClientRecordV>, name: Seq<char>, peer: Seq<char>)
    requires
        distinct_usernames(s),
        !has_user(s, name),
    ensures
        has_user(spec_register(s, name, peer), name),
        count_user(spec_register(s, name, peer), name) == 1,
        distinct_usernames(spec_register(s, name, peer)),
{
    let s1 = spec_register(s, name, peer);
    assert(s1[s.len() as int].username == name);
    lemma_count_user_zero(s, name);
    lemma_count_user_push(s, new_record(name, peer), name);
    assert forall|i: int, j: int| 0 <= i < j < s1.len() implies s1[i].username
        != s1[j].username by {
        if j == s.len() as int {
            assert(s1[i] == s[i]);
        }
    }
}

} // verus!
