//! Handler traits, the server's routing table and the process-wide registry
//! of handlers.
use vstd::prelude::*;
use vstd::utf8::*;
use vstd::string::*;

verus! {

broadcast use vstd::utf8::group_utf8_lib;

/// Per-call context handed to a handler (it carries nothing yet).
#[derive(Debug, Clone)]
pub struct RpcContext {}

impl Default for RpcContext {
    fn default() -> (r: Self)
        ensures
            r == (RpcContext {}),
    {
        RpcContext {}
    }
}

/// A unary RPC handler: a name and a call that turns a context and an input
/// into the future of the reply. Handlers are written by the library's
/// users; nothing is assumed of what their methods return.
pub trait Rpc: Sync {
    /// What a call returns: in the server, a boxed future of the reply bytes.
    type Fut;

    /// The name under which the handler is reached.
    fn name(&self) -> &'static str;

    fn call(&self, ctx: RpcContext, input: Vec<u8>) -> Self::Fut;
}

/// A streaming RPC handler: a name and a call that turns a context and an
/// input into the future of a stream of replies. Handlers are written by
/// the library's users; nothing is assumed of what their methods return.
pub trait RpcStream: Sync {
    /// What a call returns: in the server, a boxed future of a stream.
    type Fut;

    /// The name under which the handler is reached.
    fn name(&self) -> &'static str;

    fn call_stream(&self, ctx: RpcContext, input: Vec<u8>) -> Self::Fut;
}

/// True when two texts are equal, compared through their UTF-8 bytes.
pub fn same_name(a: &str, b: &str) -> (r: bool)
    ensures
        r == (a@ == b@),
{
    let x = a.as_bytes();
    let y = b.as_bytes();
    if x.len() != y.len() {
        return false;
    }
    let mut i: usize = 0;
    while i < x.len()
        invariant
            x@ == a.spec_bytes(),
            y@ == b.spec_bytes(),
            x@.len() == y@.len(),
            i <= x@.len(),
            forall|j: int| 0 <= j < i ==> x@[j] == y@[j],
        decreases x@.len() - i,
    {
        if x[i] != y[i] {
            assert(x@ != y@);
            return false;
        }
        i = i + 1;
    }
    assert(x@ =~= y@);
    assert(decode_utf8(encode_utf8(a@)) == a@);
    assert(decode_utf8(encode_utf8(b@)) == b@);
    true
}

/// The map that a list of (name, handler) entries describes; a later entry
/// for a name wins over an earlier one.
pub open spec fn entries_map<H: ?Sized>(s: Seq<(&'static str, &'static H)>) -> Map<Seq<char>, &'static H>
    decreases s.len(),
{
    if s.len() == 0 {
        Map::empty()
    } else {
        entries_map(s.drop_last()).insert(s.last().0@, s.last().1)
    }
}

/// No name occurs twice in `s`.
pub open spec fn names_unique<H: ?Sized>(s: Seq<(&'static str, &'static H)>) -> bool {
    forall|i: int, j: int| 0 <= i < s.len() && 0 <= j < s.len() && i != j ==> s[i].0@ != s[j].0@
}

/// In a list without repeated names, each entry is what the map holds for its name.
pub proof fn lemma_entries_map_lookup<H: ?Sized>(s: Seq<(&'static str, &'static H)>, i: int)
    requires
        names_unique(s),
        0 <= i < s.len(),
    ensures
        entries_map(s).contains_key(s[i].0@),
        entries_map(s)[s[i].0@] == s[i].1,
    decreases s.len(),
{
    if i < s.len() - 1 {
        let t = s.drop_last();
        assert(names_unique(t));
        assert(t[i] == s[i]);
        lemma_entries_map_lookup(t, i);
        assert(s.last().0@ != s[i].0@);
    }
}

/// A name that no entry carries is not in the map.
pub proof fn lemma_entries_map_absent<H: ?Sized>(s: Seq<(&'static str, &'static H)>, k: Seq<char>)
    requires
        forall|i: int| 0 <= i < s.len() ==> s[i].0@ != k,
    ensures
        !entries_map(s).contains_key(k),
    decreases s.len(),
{
    if s.len() > 0 {
        let t = s.drop_last();
        assert forall|i: int| 0 <= i < t.len() implies t[i].0@ != k by {
            assert(t[i] == s[i]);
        }
        lemma_entries_map_absent(t, k);
    }
}

/// Replacing the entry of a name updates the map at that name only.
pub proof fn lemma_entries_map_update<H: ?Sized>(
    s: Seq<(&'static str, &'static H)>,
    i: int,
    e: (&'static str, &'static H),
)
    requires
        names_unique(s),
        0 <= i < s.len(),
        s[i].0@ == e.0@,
    ensures
        entries_map(s.update(i, e)) == entries_map(s).insert(e.0@, e.1),
    decreases s.len(),
{
    let u = s.update(i, e);
    let t = s.drop_last();
    if i == s.len() - 1 {
        assert(u.drop_last() =~= t);
        assert(entries_map(u) =~= entries_map(s).insert(e.0@, e.1));
    } else {
        assert(u.drop_last() =~= t.update(i, e));
        assert(names_unique(t));
        lemma_entries_map_update(t, i, e);
        assert(s.last().0@ != s[i].0@);
        assert(entries_map(u) =~= entries_map(s).insert(e.0@, e.1));
    }
}

/// Handlers reachable by name, with no name listed twice.
pub struct HandlerTable<H: ?Sized + 'static> {
    entries: Vec<(&'static str, &'static H)>,
}

impl<H: ?Sized + 'static> HandlerTable<H> {
    #[verifier::type_invariant]
    spec fn wf(self) -> bool {
        names_unique(self.entries@)
    }

    /// The handler of each name.
    pub closed spec fn view(self) -> Map<Seq<char>, &'static H> {
        entries_map(self.entries@)
    }

    /// An empty table.
    pub fn new() -> (t: Self)
        ensures
            t.view() == Map::<Seq<char>, &'static H>::empty(),
    {
        HandlerTable { entries: Vec::new() }
    }

    /// Makes `h` the handler of `name`, replacing any handler it had.
    pub fn insert(&mut self, name: &'static str, h: &'static H)
        ensures
            final(self).view() == old(self).view().insert(name@, h),
    {
        proof { use_type_invariant(&*self); }
        let ghost old_entries = self.entries@;
        let mut i: usize = 0;
        while i < self.entries.len()
            invariant
                self.entries@ == old_entries,
                old(self).entries@ == old_entries,
                names_unique(old_entries),
                i <= old_entries.len(),
                forall|j: int| 0 <= j < i ==> old_entries[j].0@ != name@,
            decreases old_entries.len() - i,
        {
            if same_name(self.entries[i].0, name) {
                proof { lemma_entries_map_update(old_entries, i as int, (name, h)); }
                let mut entries: Vec<(&'static str, &'static H)> = Vec::new();
                std::mem::swap(&mut entries, &mut self.entries);
                entries.set(i, (name, h));
                assert(names_unique(entries@)) by {
                    assert forall|a: int, b: int|
                        0 <= a < entries@.len() && 0 <= b < entries@.len() && a != b
                        implies entries@[a].0@ != entries@[b].0@ by {
                        if a != i && b != i {
                            assert(entries@[a] == old_entries[a]);
                            assert(entries@[b] == old_entries[b]);
                        } else if a == i {
                            assert(entries@[b] == old_entries[b]);
                        } else {
                            assert(entries@[a] == old_entries[a]);
                        }
                    }
                }
                self.entries = entries;
                return;
            }
            i = i + 1;
        }
        let mut entries: Vec<(&'static str, &'static H)> = Vec::new();
        std::mem::swap(&mut entries, &mut self.entries);
        entries.push((name, h));
        assert(entries@.drop_last() =~= old_entries);
        assert(names_unique(entries@)) by {
            assert forall|a: int, b: int|
                0 <= a < entries@.len() && 0 <= b < entries@.len() && a != b
                implies entries@[a].0@ != entries@[b].0@ by {
                if a < old_entries.len() && b < old_entries.len() {
                    assert(entries@[a] == old_entries[a]);
                    assert(entries@[b] == old_entries[b]);
                } else if a < old_entries.len() {
                    assert(entries@[a] == old_entries[a]);
                } else {
                    assert(entries@[b] == old_entries[b]);
                }
            }
        }
        self.entries = entries;
    }

    /// The handler of `name`, if it has one.
    pub fn get(&self, name: &str) -> (r: Option<&'static H>)
        ensures
            r == (if self.view().contains_key(name@) { Some(self.view()[name@]) } else { None }),
    {
        proof { use_type_invariant(self); }
        let mut i: usize = 0;
        while i < self.entries.len()
            invariant
                names_unique(self.entries@),
                i <= self.entries@.len(),
                forall|j: int| 0 <= j < i ==> self.entries@[j].0@ != name@,
            decreases self.entries@.len() - i,
        {
            if same_name(self.entries[i].0, name) {
                proof { lemma_entries_map_lookup(self.entries@, i as int); }
                return Some(self.entries[i].1);
            }
            i = i + 1;
        }
        proof { lemma_entries_map_absent(self.entries@, name@); }
        None
    }
}

/// The server's routing table: unary and streaming handlers by name.
pub struct RpcServer<U: ?Sized + Rpc + 'static, S: ?Sized + RpcStream + 'static> {
    unary: HandlerTable<U>,
    streams: HandlerTable<S>,
}

impl<U: ?Sized + Rpc + 'static, S: ?Sized + RpcStream + 'static> RpcServer<U, S> {
    /// The unary handler of each name.
    pub closed spec fn unary_map(self) -> Map<Seq<char>, &'static U> {
        self.unary.view()
    }

    /// The streaming handler of each name.
    pub closed spec fn stream_map(self) -> Map<Seq<char>, &'static S> {
        self.streams.view()
    }

    /// A server that knows no handler.
    pub fn new() -> (s: Self)
        ensures
            s.unary_map() == Map::<Seq<char>, &'static U>::empty(),
            s.stream_map() == Map::<Seq<char>, &'static S>::empty(),
    {
        RpcServer { unary: HandlerTable::new(), streams: HandlerTable::new() }
    }

    /// Registers a unary handler under `name`; a handler that had the name
    /// before is replaced.
    pub fn sign_named(&mut self, name: &'static str, r: &'static U)
        ensures
            final(self).unary_map() == old(self).unary_map().insert(name@, r),
            final(self).stream_map() == old(self).stream_map(),
    {
        self.unary.insert(name, r);
    }

    /// Registers a streaming handler under `name`; a handler that had the
    /// name before is replaced.
    pub fn sign_stream_named(&mut self, name: &'static str, r: &'static S)
        ensures
            final(self).stream_map() == old(self).stream_map().insert(name@, r),
            final(self).unary_map() == old(self).unary_map(),
    {
        self.streams.insert(name, r);
    }

    /// Registers a unary handler under the name it reports; a handler that
    /// had the name before is replaced.
    pub fn sign(&mut self, r: &'static U) -> (out: &mut Self)
        ensures
            exists|name: &'static str|
                call_ensures(U::name, (r,), name) && #[trigger] out.unary_map()
                    == old(self).unary_map().insert(name@, r),
            out.stream_map() == old(self).stream_map(),
            *final(self) == *final(out),
    {
        let name = r.name();
        self.sign_named(name, r);
        self
    }

    /// Registers a streaming handler under the name it reports; a handler
    /// that had the name before is replaced.
    pub fn sign_stream(&mut self, r: &'static S) -> (out: &mut Self)
        ensures
            exists|name: &'static str|
                call_ensures(S::name, (r,), name) && #[trigger] out.stream_map()
                    == old(self).stream_map().insert(name@, r),
            out.unary_map() == old(self).unary_map(),
            *final(self) == *final(out),
    {
        let name = r.name();
        self.sign_stream_named(name, r);
        self
    }

    /// The unary handler registered under `name`, if any.
    pub fn find(&self, name: &str) -> (r: Option<&'static U>)
        ensures
            r == (if self.unary_map().contains_key(name@) {
                Some(self.unary_map()[name@])
            } else {
                None
            }),
    {
        self.unary.get(name)
    }

    /// The streaming handler registered under `name`, if any.
    pub fn find_stream(&self, name: &str) -> (r: Option<&'static S>)
        ensures
            r == (if self.stream_map().contains_key(name@) {
                Some(self.stream_map()[name@])
            } else {
                None
            }),
    {
        self.streams.get(name)
    }

    /// Calls the unary handler registered under `name` with `ctx` and
    /// `input`, if there is one, and returns what the call returned.
    pub fn handle(&self, name: &str, ctx: RpcContext, input: Vec<u8>) -> (r: Option<U::Fut>)
        ensures
            r is Some <==> self.unary_map().contains_key(name@),
            r matches Some(f) ==> call_ensures(U::call, (self.unary_map()[name@], ctx, input), f),
    {
        match self.find(name) {
            Some(h) => Some(h.call(ctx, input)),
            None => None,
        }
    }

    /// Calls the streaming handler registered under `name` with `ctx` and
    /// `input`, if there is one, and returns what the call returned.
    pub fn handle_stream(&self, name: &str, ctx: RpcContext, input: Vec<u8>) -> (r: Option<S::Fut>)
        ensures
            r is Some <==> self.stream_map().contains_key(name@),
            r matches Some(f) ==> call_ensures(S::call_stream, (self.stream_map()[name@], ctx, input), f),
    {
        match self.find_stream(name) {
            Some(h) => Some(h.call_stream(ctx, input)),
            None => None,
        }
    }
}

/// What signing a unary handler under a name does to lookups: the name
/// then finds that handler, and every other name finds what it found before.
pub proof fn lemma_sign_then_find<U: ?Sized + Rpc + 'static, S: ?Sized + RpcStream + 'static>(
    before: RpcServer<U, S>,
    after: RpcServer<U, S>,
    name: Seq<char>,
    r: &'static U,
    other: Seq<char>,
)
    requires
        after.unary_map() == before.unary_map().insert(name, r),
        other != name,
    ensures
        after.unary_map().contains_key(name),
        after.unary_map()[name] == r,
        after.unary_map().contains_key(other) == before.unary_map().contains_key(other),
        after.unary_map().contains_key(other) ==> after.unary_map()[other] == before.unary_map()[other],
{
}

/// Of two handlers signed under one name, the later one wins.
pub proof fn lemma_last_sign_wins<U: ?Sized + Rpc + 'static, S: ?Sized + RpcStream + 'static>(
    first: RpcServer<U, S>,
    second: RpcServer<U, S>,
    third: RpcServer<U, S>,
    name: Seq<char>,
    r1: &'static U,
    r2: &'static U,
)
    requires
        second.unary_map() == first.unary_map().insert(name, r1),
        third.unary_map() == second.unary_map().insert(name, r2),
    ensures
        third.unary_map().contains_key(name),
        third.unary_map()[name] == r2,
{
}

/// The handlers registered in a process, in the order of their first
/// registration, each with the address of the object it designates; no
/// address is listed twice.
pub struct RpcRegistry<R: ?Sized + 'static> {
    entries: Vec<(usize, &'static R)>,
}

/// No address occurs twice in `s`.
pub open spec fn addresses_unique<R: ?Sized>(s: Seq<(usize, &'static R)>) -> bool {
    forall|i: int, j: int| 0 <= i < s.len() && 0 <= j < s.len() && i != j ==> s[i].0 != s[j].0
}

/// True when some entry of `s` has the address `addr`.
pub open spec fn has_address<R: ?Sized>(s: Seq<(usize, &'static R)>, addr: usize) -> bool {
    exists|i: int| 0 <= i < s.len() && #[trigger] s[i].0 == addr
}

/// The registry after registering the object at `addr`, designated by `r`:
/// unchanged when that address is already listed, else with `(addr, r)` at the end.
pub open spec fn registered<R: ?Sized>(s: Seq<(usize, &'static R)>, addr: usize, r: &'static R) -> Seq<(usize, &'static R)> {
    if has_address(s, addr) {
        s
    } else {
        s.push((addr, r))
    }
}

/// The handlers of the entries of a registry, in order.
pub open spec fn handlers_of<R: ?Sized>(s: Seq<(usize, &'static R)>) -> Seq<&'static R> {
    s.map_values(|e: (usize, &'static R)| e.1)
}

impl<R: ?Sized + 'static> RpcRegistry<R> {
    #[verifier::type_invariant]
    spec fn wf(self) -> bool {
        addresses_unique(self.entries@)
    }

    /// The entries: each handler with its object's address.
    pub closed spec fn entries(self) -> Seq<(usize, &'static R)> {
        self.entries@
    }

    /// A registry with nothing in it.
    pub fn new() -> (reg: Self)
        ensures
            reg.entries() == Seq::<(usize, &'static R)>::empty(),
    {
        RpcRegistry { entries: Vec::new() }
    }
}

/// Adds `(addr, r)` at the end of `reg` unless `addr` is already listed.
fn register_once<R: ?Sized + 'static>(reg: &mut RpcRegistry<R>, addr: usize, r: &'static R)
    ensures
        final(reg).entries() == registered(old(reg).entries(), addr, r),
        addresses_unique(final(reg).entries()),
{
    proof { use_type_invariant(&*reg); }
    let mut i: usize = 0;
    while i < reg.entries.len()
        invariant
            reg.entries@ == old(reg).entries@,
            i <= reg.entries@.len(),
            forall|j: int| 0 <= j < i ==> reg.entries@[j].0 != addr,
        decreases reg.entries@.len() - i,
    {
        if reg.entries[i].0 == addr {
            assert(has_address(reg.entries@, addr)) by {
                assert(reg.entries@[i as int].0 == addr);
            }
            proof { use_type_invariant(&*reg); }
            return;
        }
        i = i + 1;
    }
    assert(!has_address(reg.entries@, addr));
    let ghost old_entries = reg.entries@;
    let mut entries: Vec<(usize, &'static R)> = Vec::new();
    std::mem::swap(&mut entries, &mut reg.entries);
    entries.push((addr, r));
    assert(addresses_unique(entries@)) by {
        assert forall|a: int, b: int|
            0 <= a < entries@.len() && 0 <= b < entries@.len() && a != b
            implies entries@[a].0 != entries@[b].0 by {
            if a < old_entries.len() && b < old_entries.len() {
                assert(entries@[a] == old_entries[a]);
                assert(entries@[b] == old_entries[b]);
            } else if a < old_entries.len() {
                assert(entries@[a] == old_entries[a]);
            } else {
                assert(entries@[b] == old_entries[b]);
            }
        }
    }
    reg.entries = entries;
    proof { use_type_invariant(&*reg); }
}

/// Copies out the registered handlers, in order.
fn snapshot<R: ?Sized + 'static>(reg: &RpcRegistry<R>) -> (v: Vec<&'static R>)
    ensures
        v@ == handlers_of(reg.entries()),
{
    let mut v: Vec<&'static R> = Vec::new();
    let mut i: usize = 0;
    while i < reg.entries.len()
        invariant
            i <= reg.entries@.len(),
            v@ == handlers_of(reg.entries@.take(i as int)),
        decreases reg.entries@.len() - i,
    {
        v.push(reg.entries[i].1);
        i = i + 1;
        assert(handlers_of(reg.entries@.take(i as int)) =~= handlers_of(reg.entries@.take(i - 1)).push(
            reg.entries@[i - 1].1,
        ));
    }
    assert(reg.entries@.take(i as int) =~= reg.entries@);
    v
}

/// Registers a unary handler object found at address `addr`: it is
/// appended unless an object at that address was registered before.
pub fn register_rpc<R: ?Sized + Rpc + 'static>(reg: &mut RpcRegistry<R>, addr: usize, r: &'static R)
    ensures
        final(reg).entries() == registered(old(reg).entries(), addr, r),
        addresses_unique(final(reg).entries()),
{
    register_once(reg, addr, r)
}

/// Registers a streaming handler object found at address `addr`: it is
/// appended unless an object at that address was registered before.
pub fn register_stream<R: ?Sized + RpcStream + 'static>(reg: &mut RpcRegistry<R>, addr: usize, r: &'static R)
    ensures
        final(reg).entries() == registered(old(reg).entries(), addr, r),
        addresses_unique(final(reg).entries()),
{
    register_once(reg, addr, r)
}

/// The registered unary handlers, in the order of their first registration.
pub fn snapshot_rpcs<R: ?Sized + Rpc + 'static>(reg: &RpcRegistry<R>) -> (v: Vec<&'static R>)
    ensures
        v@ == handlers_of(reg.entries()),
{
    snapshot(reg)
}

/// The registered streaming handlers, in the order of their first registration.
pub fn snapshot_streams<R: ?Sized + RpcStream + 'static>(reg: &RpcRegistry<R>) -> (v: Vec<&'static R>)
    ensures
        v@ == handlers_of(reg.entries()),
{
    snapshot(reg)
}

/// Registering an object a second time changes nothing: registration is
/// idempotent.
pub proof fn lemma_register_idempotent<R: ?Sized>(s: Seq<(usize, &'static R)>, addr: usize, r: &'static R)
    ensures
        registered(registered(s, addr, r), addr, r) == registered(s, addr, r),
{
    if !has_address(s, addr) {
        let t = s.push((addr, r));
        assert(t[s.len() as int].0 == addr);
    }
}

/// Registration keeps every address listed once, keeps the earlier entries
/// in their order, and lists the registered address.
pub proof fn lemma_register_keeps_order<R: ?Sized>(s: Seq<(usize, &'static R)>, addr: usize, r: &'static R)
    requires
        addresses_unique(s),
    ensures
        addresses_unique(registered(s, addr, r)),
        registered(s, addr, r).take(s.len() as int) == s,
        has_address(registered(s, addr, r), addr),
        !has_address(s, addr) ==> registered(s, addr, r).len() == s.len() + 1
            && registered(s, addr, r).last() == (addr, r),
{
    let t = registered(s, addr, r);
    if !has_address(s, addr) {
        assert(t[s.len() as int].0 == addr);
        assert(t.take(s.len() as int) =~= s);
        assert forall|a: int, b: int| 0 <= a < t.len() && 0 <= b < t.len() && a != b implies t[a].0 != t[b].0 by {
            if a < s.len() && b < s.len() {
                assert(t[a] == s[a] && t[b] == s[b]);
            } else if a < s.len() {
                assert(t[a] == s[a]);
            } else {
                assert(t[b] == s[b]);
            }
        }
    } else {
        assert(t.take(s.len() as int) =~= s);
    }
}

} // verus!
