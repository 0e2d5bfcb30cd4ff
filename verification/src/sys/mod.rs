//! The polling system's own data: interests, modes, readiness, tokens, and
//! the bookkeeping that ties registered file descriptors to their tokens.
use vstd::prelude::*;

use vec_map::VecMap;

pub mod kqueue;

verus! {

/// Possible modes for registering a file descriptor
#[derive(Copy, Clone, Debug, PartialEq, Eq, Structural)]
pub enum Mode {
    /// Single event generation
    ///
    /// This FD will be disabled as soon as it has generated one event.
    OneShot,
    /// Level-triggering
    ///
    /// This FD will report events on every poll as long as the requested
    /// interests are available.
    Level,
    /// Edge-triggering
    ///
    /// This FD will report events only when it *gains* one of the requested
    /// interests.
    Edge,
}

/// Interest to register regarding the file descriptor
#[derive(Copy, Clone, Debug, PartialEq, Eq, Structural)]
pub struct Interest {
    /// Wait for the FD to be readable
    pub readable: bool,
    /// Wait for the FD to be writable
    pub writable: bool,
}

impl Interest {
    /// Shorthand for empty interest
    pub fn empty() -> (i: Interest)
        ensures
            !i.readable && !i.writable,
    {
        Interest { readable: false, writable: false }
    }

    /// Shorthand for read interest
    pub fn read() -> (i: Interest)
        ensures
            i.readable && !i.writable,
    {
        Interest { readable: true, writable: false }
    }

    /// Shorthand for write interest
    pub fn write() -> (i: Interest)
        ensures
            !i.readable && i.writable,
    {
        Interest { readable: false, writable: true }
    }

    /// Shorthand for read and write interest
    pub fn both() -> (i: Interest)
        ensures
            i.readable && i.writable,
    {
        Interest { readable: true, writable: true }
    }
}

/// Readiness for a file descriptor notification
#[derive(Copy, Clone, Debug, PartialEq, Eq, Structural)]
pub struct Readiness {
    /// Is the FD readable
    pub readable: bool,
    /// Is the FD writable
    pub writable: bool,
    /// Is the FD in an error state
    pub error: bool,
}

impl Readiness {
    /// Shorthand for empty readiness
    pub fn empty() -> (r: Readiness)
        ensures
            !r.readable && !r.writable && !r.error,
    {
        Readiness { readable: false, writable: false, error: false }
    }
}

/// A token (for implementation of the `EventSource` trait)
///
/// This token is produced by the [`TokenFactory`] and is used when calling
/// the event sources to process event, in order to identify which sub-source
/// produced them.
#[derive(Clone, Copy, Debug, PartialEq, Eq, Structural)]
pub struct Token {
    pub(crate) key: usize,
    pub(crate) sub_id: u32,
}

impl Token {
    /// The registration key of the source this token belongs to.
    pub closed spec fn spec_key(self) -> usize {
        self.key
    }

    /// The rank of this token among those its factory produced.
    pub closed spec fn spec_sub_id(self) -> u32 {
        self.sub_id
    }

    /// A token that no factory produces: the one an unregistered source holds.
    pub fn invalid() -> (t: Token)
        ensures
            t.spec_key() == usize::MAX,
            t.spec_sub_id() == u32::MAX,
    {
        Token { key: usize::MAX, sub_id: u32::MAX }
    }

    /// The registration key of the source this token belongs to.
    pub fn key(&self) -> (k: usize)
        ensures
            k == self.spec_key(),
    {
        self.key
    }
}

/// Factory for creating tokens in your registrations
///
/// When composing event sources, each sub-source needs to have its own
/// token to identify itself. This factory is provided to produce such
/// unique tokens.
#[derive(Debug)]
pub struct TokenFactory {
    key: usize,
    sub_id: u32,
}

/// The tokens a factory for `key` has produced once `sub_id` of them went out.
pub open spec fn issued_tokens(key: usize, sub_id: u32) -> Set<Token> {
    Set::new(|t: Token| t.spec_key() == key && t.spec_sub_id() < sub_id)
}

impl TokenFactory {
    /// The registration key of the tokens this factory produces.
    pub closed spec fn spec_key(self) -> usize {
        self.key
    }

    /// How many tokens this factory has produced.
    pub closed spec fn produced(self) -> u32 {
        self.sub_id
    }

    /// A factory for the tokens of the source registered under `key`.
    pub fn new(key: usize) -> (f: TokenFactory)
        ensures
            f.spec_key() == key,
            f.produced() == 0,
    {
        TokenFactory { key, sub_id: 0 }
    }

    /// How many tokens this factory has produced.
    pub fn produced_count(&self) -> (n: u32)
        ensures
            n == self.produced(),
    {
        self.sub_id
    }

    /// Produce a new unique token
    pub fn token(&mut self) -> (t: Token)
        requires
            old(self).produced() < u32::MAX,
        ensures
            t.spec_key() == old(self).spec_key(),
            t.spec_sub_id() == old(self).produced(),
            final(self).spec_key() == old(self).spec_key(),
            final(self).produced() == old(self).produced() + 1,
            !issued_tokens(old(self).spec_key(), old(self).produced()).contains(t),
            issued_tokens(final(self).spec_key(), final(self).produced()) == issued_tokens(
                old(self).spec_key(),
                old(self).produced(),
            ).insert(t),
    {
        let token = Token { key: self.key, sub_id: self.sub_id };
        self.sub_id = self.sub_id + 1;
        assert(issued_tokens(self.key, self.sub_id) =~= issued_tokens(
            self.key,
            (self.sub_id - 1) as u32,
        ).insert(token));
        token
    }
}

/// Every token a factory produces is new, however many calls are made. The
/// tokens `ts` returned by successive calls of `token` on a factory for
/// `key` that had produced `start` tokens meet, call by call, what `token`
/// ensures: the `i`-th carries the key and the count at its call, was not
/// among the tokens issued before, and joins them. Then no two of them
/// coincide, their sub-ids increase, and all are issued once the calls are
/// done.
pub proof fn lemma_successive_tokens_unique(key: usize, start: u32, ts: Seq<Token>)
    requires
        start + ts.len() <= u32::MAX,
        forall|i: int|
            0 <= i < ts.len() ==> {
                &&& (#[trigger] ts[i]).spec_key() == key
                &&& ts[i].spec_sub_id() == start + i
                &&& !issued_tokens(key, (start + i) as u32).contains(ts[i])
                &&& issued_tokens(key, (start + i + 1) as u32) == issued_tokens(
                    key,
                    (start + i) as u32,
                ).insert(ts[i])
            },
    ensures
        forall|i: int, j: int|
            0 <= i < j < ts.len() ==> #[trigger] ts[i] != #[trigger] ts[j] && ts[i].spec_key()
                == ts[j].spec_key() && ts[i].spec_sub_id() < ts[j].spec_sub_id(),
        forall|i: int| 0 <= i < ts.len() ==> !issued_tokens(key, start).contains(#[trigger] ts[i]),
        forall|i: int|
            0 <= i < ts.len() ==> issued_tokens(key, (start + ts.len()) as u32).contains(
                #[trigger] ts[i],
            ),
    decreases ts.len(),
{
    if ts.len() > 0 {
        let n = ts.len() - 1;
        let init = ts.drop_last();
        assert forall|i: int| 0 <= i < init.len() implies {
            &&& (#[trigger] init[i]).spec_key() == key
            &&& init[i].spec_sub_id() == start + i
            &&& !issued_tokens(key, (start + i) as u32).contains(init[i])
            &&& issued_tokens(key, (start + i + 1) as u32) == issued_tokens(
                key,
                (start + i) as u32,
            ).insert(init[i])
        } by {
            assert(init[i] == ts[i]);
        }
        lemma_successive_tokens_unique(key, start, init);
        // every earlier token was issued before the last call, which was not
        assert forall|i: int, j: int| 0 <= i < j < ts.len() implies #[trigger] ts[i] != #[trigger] ts[j]
            && ts[i].spec_key() == ts[j].spec_key() && ts[i].spec_sub_id() < ts[j].spec_sub_id() by {
            if j < n {
                assert(init[i] == ts[i] && init[j] == ts[j]);
            } else {
                assert(init[i] == ts[i]);
                assert(issued_tokens(key, (start + n) as u32).contains(ts[i]));
                assert(!issued_tokens(key, (start + n) as u32).contains(ts[n]));
            }
        }
        assert forall|i: int| 0 <= i < ts.len() implies issued_tokens(
            key,
            (start + ts.len()) as u32,
        ).contains(#[trigger] ts[i]) by {
            if i < n {
                assert(init[i] == ts[i]);
                assert(issued_tokens(key, (start + n) as u32).contains(ts[i]));
            }
        }
    }
}

/// Tokens identify their source: the tokens produced for two different
/// registration keys never coincide, however many each factory produced.
pub proof fn lemma_tokens_of_sources_disjoint(k1: usize, n1: u32, k2: usize, n2: u32)
    requires
        k1 != k2,
    ensures
        issued_tokens(k1, n1).disjoint(issued_tokens(k2, n2)),
{
}

/// A readiness notification for a registered source.
#[derive(Copy, Clone, Debug, PartialEq, Eq, Structural)]
pub struct PollEvent {
    pub readiness: Readiness,
    pub token: Token,
}

/// `vec_map::VecMap`, the map keyed by small integers that holds the tokens;
/// opaque here, its contents are named by `token_map_contents`.
#[verifier::external_type_specification]
#[verifier::external_body]
#[verifier::reject_recursive_types(V)]
pub struct ExVecMap<V>(VecMap<V>);

/// What a token map holds: the token of each registered file descriptor.
pub uninterp spec fn token_map_contents(m: VecMap<Token>) -> Map<usize, Token>;

/// `VecMap::new`: an empty map.
#[verifier::external_body]
fn token_map_new() -> (created: VecMap<Token>)
    ensures
        forall|k: usize| !token_map_contents(created).contains_key(k),
{
    VecMap::new()
}

/// `VecMap::insert`: sets the value of `key`, returning the previous one.
#[verifier::external_body]
fn token_map_insert(m: &mut VecMap<Token>, key: usize, value: Token) -> (prev: Option<Token>)
    requires
        key < usize::MAX,
    ensures
        token_map_contents(*final(m)) == token_map_contents(*old(m)).insert(key, value),
        prev == token_map_contents(*old(m)).get(key),
{
    m.insert(key, value)
}

/// `VecMap::remove`: removes `key`, returning its value.
#[verifier::external_body]
fn token_map_remove(m: &mut VecMap<Token>, key: usize) -> (prev: Option<Token>)
    ensures
        token_map_contents(*final(m)) == token_map_contents(*old(m)).remove(key),
        prev == token_map_contents(*old(m)).get(key),
{
    m.remove(key)
}

/// `VecMap::get`: the value of `key`, copied out.
#[verifier::external_body]
fn token_map_get(m: &VecMap<Token>, key: usize) -> (v: Option<Token>)
    ensures
        v == token_map_contents(*m).get(key),
{
    m.get(key).copied()
}

/// Converts a file descriptor into an index for the token map.
pub fn index_from_fd(fd: i32) -> (index: usize)
    requires
        fd >= 0,
    ensures
        index == fd,
{
    fd as usize
}

/// The data the kernel hands back for the high-precision timer of the poller.
pub const TIMER_DATA: u64 = 0xffff_ffff_ffff_ffff;

/// The events for registered descriptors among raw `(data, readiness)`
/// pairs, in order: the timer's own wake-ups and descriptors no longer
/// registered produce nothing.
pub open spec fn translated(tokens: Map<usize, Token>, raw: Seq<(u64, Readiness)>) -> Seq<PollEvent>
    decreases raw.len(),
{
    if raw.len() == 0 {
        Seq::empty()
    } else {
        let rest = translated(tokens, raw.drop_last());
        let (data, readiness) = raw.last();
        if data != TIMER_DATA && data <= usize::MAX && tokens.contains_key(data as usize) {
            rest.push(PollEvent { readiness, token: tokens[data as usize] })
        } else {
            rest
        }
    }
}

/// The events for registered descriptors are, in order, one for each raw
/// pair whose data is a registered descriptor (not the timer's mark),
/// carrying exactly the readiness the kernel reported with it and the token
/// the descriptor is registered with.
pub proof fn lemma_translated_keeps_readiness(tokens: Map<usize, Token>, raw: Seq<(u64, Readiness)>)
    ensures
        translated(tokens, raw) == raw.filter(
            |e: (u64, Readiness)|
                e.0 != TIMER_DATA && e.0 <= usize::MAX && tokens.contains_key(e.0 as usize),
        ).map_values(
            |e: (u64, Readiness)| PollEvent { readiness: e.1, token: tokens[e.0 as usize] },
        ),
    decreases raw.len(),
{
    let pred = |e: (u64, Readiness)|
        e.0 != TIMER_DATA && e.0 <= usize::MAX && tokens.contains_key(e.0 as usize);
    let to_event = |e: (u64, Readiness)| PollEvent { readiness: e.1, token: tokens[e.0 as usize] };
    reveal(Seq::filter);
    if raw.len() == 0 {
        assert(raw.filter(pred).map_values(to_event) =~= Seq::<PollEvent>::empty());
    } else {
        lemma_translated_keeps_readiness(tokens, raw.drop_last());
        let sub = raw.drop_last().filter(pred);
        if pred(raw.last()) {
            assert(raw.filter(pred) == sub.push(raw.last()));
            assert(sub.push(raw.last()).map_values(to_event) =~= sub.map_values(to_event).push(
                to_event(raw.last()),
            ));
        } else {
            assert(raw.filter(pred) == sub);
        }
    }
}

/// The tokens of the file descriptors registered with the polling system.
///
/// The kernel hands back the descriptor of each ready registration; this
/// map gives the token it was registered with.
#[derive(Debug)]
pub struct TokenRegistry {
    tokens: VecMap<Token>,
}

impl View for TokenRegistry {
    type V = Map<usize, Token>;

    closed spec fn view(&self) -> Map<usize, Token> {
        token_map_contents(self.tokens)
    }
}

impl TokenRegistry {
    /// No descriptor registered.
    pub fn new() -> (r: Self)
        ensures
            r@ == Map::<usize, Token>::empty(),
    {
        let r = TokenRegistry { tokens: token_map_new() };
        assert(r@ =~= Map::<usize, Token>::empty());
        r
    }

    /// Record the outcome of registering `fd` with `token`: on success the
    /// descriptor is now known under that token. A descriptor that was
    /// already known is a conflict: the registry is left as it was and the
    /// result says so.
    pub fn register(&mut self, fd: i32, token: Token, registered: bool) -> (conflict: bool)
        requires
            registered ==> fd >= 0,
        ensures
            conflict <==> registered && old(self)@.contains_key(fd as usize),
            registered && !conflict ==> final(self)@ == old(self)@.insert(fd as usize, token),
            !registered || conflict ==> final(self)@ == old(self)@,
    {
        if !registered {
            return false;
        }
        let index = index_from_fd(fd);
        if token_map_get(&self.tokens, index).is_some() {
            return true;
        }
        token_map_insert(&mut self.tokens, index, token);
        false
    }

    /// Record the outcome of re-registering `fd` with `token`: on success the
    /// previous token of the descriptor is replaced. A descriptor that was
    /// not known is a conflict: the registry is left as it was and the
    /// result says so.
    pub fn reregister(&mut self, fd: i32, token: Token, reregistered: bool) -> (conflict: bool)
        requires
            reregistered ==> fd >= 0,
        ensures
            conflict <==> reregistered && !old(self)@.contains_key(fd as usize),
            reregistered && !conflict ==> final(self)@ == old(self)@.insert(fd as usize, token),
            !reregistered || conflict ==> final(self)@ == old(self)@,
    {
        if !reregistered {
            return false;
        }
        let index = index_from_fd(fd);
        if token_map_get(&self.tokens, index).is_none() {
            return true;
        }
        token_map_insert(&mut self.tokens, index, token);
        false
    }

    /// Record the outcome of unregistering `fd`: on success the descriptor
    /// is forgotten. A descriptor that was not known is a conflict: the
    /// registry is left as it was and the result says so.
    pub fn unregister(&mut self, fd: i32, unregistered: bool) -> (conflict: bool)
        requires
            unregistered ==> fd >= 0,
        ensures
            conflict <==> unregistered && !old(self)@.contains_key(fd as usize),
            unregistered && !conflict ==> final(self)@ == old(self)@.remove(fd as usize),
            !unregistered || conflict ==> final(self)@ == old(self)@,
    {
        if !unregistered {
            return false;
        }
        let index = index_from_fd(fd);
        if token_map_get(&self.tokens, index).is_none() {
            return true;
        }
        token_map_remove(&mut self.tokens, index);
        false
    }

    /// The token `fd` is registered with, if any.
    pub fn token_for(&self, fd: i32) -> (t: Option<Token>)
        requires
            fd >= 0,
        ensures
            t == self@.get(fd as usize),
    {
        token_map_get(&self.tokens, index_from_fd(fd))
    }

    /// Turn what the kernel reported, `(data, readiness)` pairs, into events
    /// for the registered sources; the flag tells whether the poller's own
    /// high-precision timer was among them.
    pub fn translate_events(&self, raw: &Vec<(u64, Readiness)>) -> (r: (Vec<PollEvent>, bool))
        ensures
            r.0@ == translated(self@, raw@),
            r.1 <==> exists|i: int| 0 <= i < raw@.len() && raw@[i].0 == TIMER_DATA,
    {
        let mut events: Vec<PollEvent> = Vec::new();
        let mut timer_fired = false;
        let n = raw.len();
        let mut i: usize = 0;
        while i < n
            invariant
                n == raw@.len(),
                i <= n,
                events@ == translated(self@, raw@.take(i as int)),
                timer_fired <==> exists|j: int| 0 <= j < i && raw@[j].0 == TIMER_DATA,
            decreases n - i,
        {
            proof {
                assert(raw@.take(i + 1).drop_last() == raw@.take(i as int));
            }
            let (data, readiness) = raw[i];
            if data == TIMER_DATA {
                timer_fired = true;
            } else if data <= usize::MAX as u64 {
                let index = data as usize;
                match token_map_get(&self.tokens, index) {
                    Some(token) => events.push(PollEvent { readiness, token }),
                    None => {},
                }
            }
            i = i + 1;
        }
        proof {
            assert(raw@.take(n as int) == raw@);
        }
        (events, timer_fired)
    }
}

/// Registering a descriptor and then unregistering it leaves the registry
/// as it was; re-registering only changes the token of a registered
/// descriptor.
pub proof fn lemma_registration_roundtrip(m: Map<usize, Token>, fd: usize, t: Token, t2: Token)
    requires
        !m.contains_key(fd),
    ensures
        m.insert(fd, t).remove(fd) == m,
        m.insert(fd, t).insert(fd, t2).dom() == m.insert(fd, t).dom(),
        m.insert(fd, t).insert(fd, t2)[fd] == t2,
{
    assert(m.insert(fd, t).remove(fd) =~= m);
    assert(m.insert(fd, t).insert(fd, t2).dom() =~= m.insert(fd, t).dom());
}

/// How long to wait for events (in nanoseconds, `None` for no limit), once
/// the earliest timer deadline is accounted for, the time being `now`.
pub fn adjust_timeout(timeout: Option<u64>, next_deadline: Option<u64>, now: u64) -> (r: Option<
    u64,
>)
    ensures
        next_deadline is None ==> r == timeout,
        next_deadline matches Some(d) ==> r == if d <= now {
            Some(0u64)
        } else {
            match timeout {
                Some(t) => Some(if t <= d - now {
                    t
                } else {
                    (d - now) as u64
                }),
                None => Some((d - now) as u64),
            }
        },
{
    match next_deadline {
        Some(next) => {
            if next <= now {
                Some(0)
            } else {
                let left = next - now;
                match timeout {
                    Some(t) => Some(if t <= left {
                        t
                    } else {
                        left
                    }),
                    None => Some(left),
                }
            }
        },
        None => timeout,
    }
}

/// The timeout handed to the kernel, in milliseconds: one more than the
/// whole milliseconds of `timeout` (the precise timer fires before), or -1
/// to wait without limit.
pub fn epoll_timeout_ms(timeout: Option<u64>) -> (ms: i64)
    ensures
        timeout is None ==> ms == -1,
        timeout matches Some(t) ==> ms == t / 1_000_000 + 1,
{
    match timeout {
        Some(t) => (t / 1_000_000) as i64 + 1,
        None => -1,
    }
}

/// What remains of a wait after an interruption.
#[derive(Copy, Clone, Debug, PartialEq, Eq, Structural)]
pub enum Interrupted {
    /// The whole timeout has elapsed: stop waiting.
    Elapsed,
    /// Wait again, for this long (`None`: without limit).
    Retry(Option<u64>),
}

/// When the wait for events is interrupted by a signal after `elapsed`
/// nanoseconds, wait again for the rest of `timeout`, or stop if it has
/// run out.
pub fn after_interruption(timeout: Option<u64>, elapsed: u64) -> (r: Interrupted)
    ensures
        timeout is None ==> r == Interrupted::Retry(None),
        timeout matches Some(t) ==> if elapsed >= t {
            r == Interrupted::Elapsed
        } else {
            r == Interrupted::Retry(Some((t - elapsed) as u64))
        },
{
    match timeout {
        Some(t) => {
            if elapsed >= t {
                Interrupted::Elapsed
            } else {
                Interrupted::Retry(Some(t - elapsed))
            }
        },
        None => Interrupted::Retry(None),
    }
}

} // verus!
