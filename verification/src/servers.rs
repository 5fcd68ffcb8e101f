//! The servers the launcher can connect to, keyed and ordered by name.

use vstd::prelude::*;

use crate::text::chars_of;

verus! {

/// One server: its display name, the host the game connects to, and the page
/// the login window opens.
#[derive(Debug, Clone)]
pub struct ServerDefinition {
    pub name: String,
    pub address: String,
    pub login_url: String,
}

/// A server as three character sequences.
pub struct SpecServer {
    pub name: Seq<char>,
    pub address: Seq<char>,
    pub login_url: Seq<char>,
}

impl View for ServerDefinition {
    type V = SpecServer;

    open spec fn view(&self) -> SpecServer {
        SpecServer { name: self.name@, address: self.address@, login_url: self.login_url@ }
    }
}

/// Lexicographic order of character sequences by code point; on strings it is
/// the byte order of their UTF-8 encodings, the order of `str`'s `Ord`.
pub open spec fn seq_lt(a: Seq<char>, b: Seq<char>) -> bool
    decreases a.len(),
{
    if a.len() == 0 {
        b.len() > 0
    } else if b.len() == 0 {
        false
    } else if a[0] != b[0] {
        (a[0] as u32) < (b[0] as u32)
    } else {
        seq_lt(a.drop_first(), b.drop_first())
    }
}

/// No name sorts before itself.
pub proof fn lemma_lt_irreflexive(a: Seq<char>)
    ensures
        !seq_lt(a, a),
    decreases a.len(),
{
    if a.len() > 0 {
        lemma_lt_irreflexive(a.drop_first());
    }
}

/// The name order is transitive.
pub proof fn lemma_lt_transitive(a: Seq<char>, b: Seq<char>, c: Seq<char>)
    requires
        seq_lt(a, b),
        seq_lt(b, c),
    ensures
        seq_lt(a, c),
    decreases a.len(),
{
    if a.len() > 0 && b.len() > 0 && c.len() > 0 {
        if a[0] == b[0] && b[0] == c[0] {
            lemma_lt_transitive(a.drop_first(), b.drop_first(), c.drop_first());
        }
    }
}

/// Of two different names one sorts before the other.
pub proof fn lemma_lt_total(a: Seq<char>, b: Seq<char>)
    ensures
        a == b || seq_lt(a, b) || seq_lt(b, a),
    decreases a.len(),
{
    if a.len() > 0 && b.len() > 0 {
        if a[0] == b[0] {
            lemma_lt_total(a.drop_first(), b.drop_first());
            if a.drop_first() == b.drop_first() {
                assert(a =~= seq![a[0]] + a.drop_first());
                assert(b =~= seq![b[0]] + b.drop_first());
            }
        } else {
            vstd::utf8::char_u32_cast(a[0], a[0] as u32);
            vstd::utf8::char_u32_cast(b[0], b[0] as u32);
            assert((a[0] as u32) != (b[0] as u32));
        }
    } else if a.len() == 0 && b.len() == 0 {
        assert(a =~= b);
    }
}

/// Two names never sort before each other.
pub proof fn lemma_lt_asymmetric(a: Seq<char>, b: Seq<char>)
    requires
        seq_lt(a, b),
    ensures
        !seq_lt(b, a),
{
    if seq_lt(b, a) {
        lemma_lt_transitive(a, b, a);
        lemma_lt_irreflexive(a);
    }
}

proof fn lemma_lt_skip(a: Seq<char>, b: Seq<char>, k: int)
    requires
        0 <= k <= a.len(),
        k <= b.len(),
        forall|j: int| 0 <= j < k ==> a[j] == b[j],
    ensures
        seq_lt(a, b) == seq_lt(a.subrange(k, a.len() as int), b.subrange(k, b.len() as int)),
    decreases k,
{
    if k > 0 {
        lemma_lt_skip(a.drop_first(), b.drop_first(), k - 1);
        assert(a.drop_first().subrange(k - 1, a.len() - 1) =~= a.subrange(k, a.len() as int));
        assert(b.drop_first().subrange(k - 1, b.len() - 1) =~= b.subrange(k, b.len() as int));
    } else {
        assert(a.subrange(0, a.len() as int) =~= a);
        assert(b.subrange(0, b.len() as int) =~= b);
    }
}

/// Whether `a` orders before `b`.
pub fn name_lt(a: &str, b: &str) -> (r: bool)
    ensures
        r == seq_lt(a@, b@),
{
    let x = chars_of(a);
    let y = chars_of(b);
    let mut k: usize = 0;
    while k < x.len() && k < y.len() && x[k] == y[k]
        invariant
            x@ == a@,
            y@ == b@,
            k <= x@.len(),
            k <= y@.len(),
            forall|j: int| 0 <= j < k ==> x@[j] == y@[j],
        decreases x@.len() - k,
    {
        k += 1;
    }
    proof {
        lemma_lt_skip(x@, y@, k as int);
    }
    let ghost xs = x@.subrange(k as int, x@.len() as int);
    let ghost ys = y@.subrange(k as int, y@.len() as int);
    if k == x.len() {
        k < y.len()
    } else if k == y.len() {
        false
    } else {
        proof {
            assert(xs[0] == x@[k as int] && ys[0] == y@[k as int]);
        }
        (x[k] as u32) < (y[k] as u32)
    }
}

/// Whether two strings hold the same characters.
pub fn same_text(a: &str, b: &str) -> (r: bool)
    ensures
        r == (a@ == b@),
{
    let lt = name_lt(a, b);
    let gt = name_lt(b, a);
    proof {
        lemma_lt_total(a@, b@);
        if a@ == b@ {
            lemma_lt_irreflexive(a@);
        }
    }
    !lt && !gt
}

/// Names strictly increasing and none empty.
pub open spec fn sorted_by_name(s: Seq<SpecServer>) -> bool {
    &&& forall|i: int, j: int| 0 <= i < j < s.len() ==> seq_lt(#[trigger] s[i].name, #[trigger] s[j].name)
    &&& forall|i: int| 0 <= i < s.len() ==> #[trigger] s[i].name.len() > 0
}

/// The map from name to server that a list holds.
pub open spec fn list_map(s: Seq<SpecServer>) -> Map<Seq<char>, SpecServer>
    decreases s.len(),
{
    if s.len() == 0 {
        Map::empty()
    } else {
        list_map(s.drop_last()).insert(s.last().name, s.last())
    }
}

/// The servers of `entries` by name: those with an empty name are left out,
/// and of entries sharing a name the last one counts.
pub open spec fn entries_map(entries: Seq<SpecServer>) -> Map<Seq<char>, SpecServer>
    decreases entries.len(),
{
    if entries.len() == 0 {
        Map::empty()
    } else if entries.last().name.len() == 0 {
        entries_map(entries.drop_last())
    } else {
        entries_map(entries.drop_last()).insert(entries.last().name, entries.last())
    }
}

/// The views of a list of servers.
pub open spec fn views(s: Seq<ServerDefinition>) -> Seq<SpecServer> {
    Seq::new(s.len(), |i: int| s[i]@)
}

/// A set of servers with unique, non-empty names, kept in name order.
#[derive(Debug, Clone)]
pub struct ServerDefinitions {
    servers: Vec<ServerDefinition>,
}

impl View for ServerDefinitions {
    type V = Seq<SpecServer>;

    closed spec fn view(&self) -> Seq<SpecServer> {
        views(self.servers@)
    }
}

/// In a sorted list every name occurs once and the list's map agrees with it.
pub proof fn lemma_sorted_map(s: Seq<SpecServer>)
    requires
        sorted_by_name(s),
    ensures
        forall|n: Seq<char>| #[trigger] list_map(s).contains_key(n) <==> (exists|i: int| 0 <= i < s.len() && #[trigger] s[i].name == n),
        forall|i: int| 0 <= i < s.len() ==> #[trigger] list_map(s)[s[i].name] == s[i],
        list_map(s).dom().finite(),
        list_map(s).dom().len() == s.len(),
    decreases s.len(),
{
    if s.len() > 0 {
        let p = s.drop_last();
        assert(sorted_by_name(p)) by {
            assert forall|i: int, j: int| 0 <= i < j < p.len() implies seq_lt(#[trigger] p[i].name, #[trigger] p[j].name) by {
                assert(p[i] == s[i] && p[j] == s[j]);
            }
            assert forall|i: int| 0 <= i < p.len() implies #[trigger] p[i].name.len() > 0 by {
                assert(p[i] == s[i]);
            }
        }
        lemma_sorted_map(p);
        let last = s.last();
        assert(!list_map(p).contains_key(last.name)) by {
            if list_map(p).contains_key(last.name) {
                let i = choose|i: int| 0 <= i < p.len() && #[trigger] p[i].name == last.name;
                assert(s[i].name == last.name);
                assert(seq_lt(s[i].name, s[s.len() - 1].name));
                lemma_lt_irreflexive(last.name);
            }
        }
        assert forall|n: Seq<char>| #[trigger] list_map(s).contains_key(n) <==> (exists|i: int| 0 <= i < s.len() && #[trigger] s[i].name == n) by {
            if list_map(s).contains_key(n) && n != last.name {
                let i = choose|i: int| 0 <= i < p.len() && #[trigger] p[i].name == n;
                assert(s[i].name == n);
            }
            if exists|i: int| 0 <= i < s.len() && #[trigger] s[i].name == n {
                let i = choose|i: int| 0 <= i < s.len() && #[trigger] s[i].name == n;
                if i < s.len() - 1 {
                    assert(p[i].name == n);
                }
            }
        }
        assert forall|i: int| 0 <= i < s.len() implies #[trigger] list_map(s)[s[i].name] == s[i] by {
            if i < s.len() - 1 {
                assert(p[i] == s[i]);
                assert(seq_lt(s[i].name, s[s.len() - 1].name));
                if s[i].name == last.name {
                    lemma_lt_irreflexive(last.name);
                }
            }
        }
        assert(list_map(s).dom() =~= list_map(p).dom().insert(last.name));
    }
}

proof fn lemma_insert_sorted(old_list: Seq<SpecServer>, i: int, x: SpecServer)
    requires
        sorted_by_name(old_list),
        0 <= i <= old_list.len(),
        x.name.len() > 0,
        forall|j: int| 0 <= j < i ==> seq_lt(#[trigger] old_list[j].name, x.name),
        i < old_list.len() ==> seq_lt(x.name, old_list[i].name),
    ensures
        sorted_by_name(old_list.insert(i, x)),
{
    let new_list = old_list.insert(i, x);
    assert forall|a: int, b: int| 0 <= a < b < new_list.len() implies seq_lt(#[trigger] new_list[a].name, #[trigger] new_list[b].name) by {
        if b < i {
            assert(new_list[a] == old_list[a] && new_list[b] == old_list[b]);
        } else if b == i {
            assert(new_list[a] == old_list[a]);
        } else if a == i {
            assert(new_list[b] == old_list[b - 1]);
            if b - 1 > i {
                lemma_lt_transitive(x.name, old_list[i].name, old_list[b - 1].name);
            }
        } else if a < i {
            assert(new_list[a] == old_list[a] && new_list[b] == old_list[b - 1]);
        } else {
            assert(new_list[a] == old_list[a - 1] && new_list[b] == old_list[b - 1]);
        }
    }
    assert forall|a: int| 0 <= a < new_list.len() implies #[trigger] new_list[a].name.len() > 0 by {
        if a < i {
            assert(new_list[a] == old_list[a]);
        } else if a > i {
            assert(new_list[a] == old_list[a - 1]);
        }
    }
}

impl ServerDefinitions {
    /// Names strictly increasing and none empty.
    pub open spec fn wf(&self) -> bool {
        sorted_by_name(self@)
    }

    /// The servers by name.
    pub open spec fn as_map(&self) -> Map<Seq<char>, SpecServer> {
        list_map(self@)
    }

    /// No servers.
    pub fn new() -> (r: Self)
        ensures
            r.wf(),
            r@ == Seq::<SpecServer>::empty(),
    {
        let r = ServerDefinitions { servers: Vec::new() };
        proof {
            assert(r@ =~= Seq::<SpecServer>::empty());
        }
        r
    }

    /// Adds `server`, replacing one of the same name; an empty name is ignored.
    pub fn insert(&mut self, server: ServerDefinition)
        requires
            old(self).wf(),
        ensures
            final(self).wf(),
            server.name@.len() == 0 ==> final(self).as_map() == old(self).as_map(),
            server.name@.len() > 0 ==> final(self).as_map() == old(self).as_map().insert(server.name@, server@),
    {
        if server.name.as_str().unicode_len() == 0 {
            return;
        }
        let ghost old_list = self@;
        let n = self.servers.len();
        let mut i: usize = 0;
        while i < n && name_lt(self.servers[i].name.as_str(), server.name.as_str())
            invariant
                n == self.servers@.len(),
                self@ == old_list,
                sorted_by_name(old_list),
                i <= n,
                forall|j: int| 0 <= j < i ==> seq_lt(#[trigger] old_list[j].name, server.name@),
            decreases n - i,
        {
            i += 1;
        }
        proof {
            lemma_sorted_map(old_list);
        }
        if i < n && same_text(self.servers[i].name.as_str(), server.name.as_str()) {
            self.servers.set(i, server);
            let ghost new_list = self@;
            proof {
                assert(new_list =~= old_list.update(i as int, server@));
                assert(forall|j: int| 0 <= j < new_list.len() ==> #[trigger] new_list[j].name == old_list[j].name);
                assert(sorted_by_name(new_list)) by {
                    assert forall|a: int, b: int| 0 <= a < b < new_list.len() implies seq_lt(#[trigger] new_list[a].name, #[trigger] new_list[b].name) by {
                        assert(old_list[a].name == new_list[a].name);
                        assert(old_list[b].name == new_list[b].name);
                    }
                }
                lemma_sorted_map(new_list);
                assert(self.as_map() =~= old(self).as_map().insert(server.name@, server@)) by {
                    assert forall|k: Seq<char>| #[trigger] self.as_map().contains_key(k) <==> old(self).as_map().insert(server.name@, server@).contains_key(k) by {
                        if self.as_map().contains_key(k) {
                            let j = choose|j: int| 0 <= j < new_list.len() && #[trigger] new_list[j].name == k;
                            if j != i {
                                assert(old_list[j].name == k);
                            }
                        }
                        if old(self).as_map().contains_key(k) {
                            let j = choose|j: int| 0 <= j < old_list.len() && #[trigger] old_list[j].name == k;
                            assert(new_list[j].name == k);
                        }
                        if k == server.name@ {
                            assert(new_list[i as int].name == k);
                        }
                    }
                    assert forall|k: Seq<char>| #[trigger] self.as_map().contains_key(k) implies self.as_map()[k] == old(self).as_map().insert(server.name@, server@)[k] by {
                        let j = choose|j: int| 0 <= j < new_list.len() && #[trigger] new_list[j].name == k;
                        if j != i {
                            assert(old_list[j] == new_list[j]);
                            if k == server.name@ {
                                lemma_lt_irreflexive(k);
                                if j < i {
                                    assert(seq_lt(new_list[j].name, new_list[i as int].name));
                                } else {
                                    assert(seq_lt(new_list[i as int].name, new_list[j].name));
                                }
                            }
                        }
                    }
                }
            }
        } else {
            self.servers.insert(i, server);
            let ghost new_list = self@;
            proof {
                assert(new_list =~= old_list.insert(i as int, server@));
                if i < n {
                    lemma_lt_total(old_list[i as int].name, server.name@);
                }
                if i < n {
                    lemma_lt_asymmetric(server.name@, old_list[i as int].name);
                    assert(seq_lt(server.name@, old_list[i as int].name));
                }
                lemma_insert_sorted(old_list, i as int, server@);
                lemma_sorted_map(new_list);
                assert(!old(self).as_map().contains_key(server.name@)) by {
                    if old(self).as_map().contains_key(server.name@) {
                        let j = choose|j: int| 0 <= j < old_list.len() && #[trigger] old_list[j].name == server.name@;
                        lemma_lt_irreflexive(server.name@);
                        if j < i {
                        } else if j > i {
                            assert(seq_lt(old_list[i as int].name, old_list[j].name));
                            lemma_lt_asymmetric(server.name@, old_list[i as int].name);
                        }
                    }
                }
                assert(self.as_map() =~= old(self).as_map().insert(server.name@, server@)) by {
                    assert forall|k: Seq<char>| #[trigger] self.as_map().contains_key(k) <==> old(self).as_map().insert(server.name@, server@).contains_key(k) by {
                        if self.as_map().contains_key(k) {
                            let j = choose|j: int| 0 <= j < new_list.len() && #[trigger] new_list[j].name == k;
                            if j < i {
                                assert(old_list[j].name == k);
                            } else if j > i {
                                assert(old_list[j - 1].name == k);
                            }
                        }
                        if old(self).as_map().contains_key(k) {
                            let j = choose|j: int| 0 <= j < old_list.len() && #[trigger] old_list[j].name == k;
                            if j < i {
                                assert(new_list[j].name == k);
                            } else {
                                assert(new_list[j + 1].name == k);
                            }
                        }
                        if k == server.name@ {
                            assert(new_list[i as int].name == k);
                        }
                    }
                    assert forall|k: Seq<char>| #[trigger] self.as_map().contains_key(k) implies self.as_map()[k] == old(self).as_map().insert(server.name@, server@)[k] by {
                        let j = choose|j: int| 0 <= j < new_list.len() && #[trigger] new_list[j].name == k;
                        if j < i {
                            assert(new_list[j] == old_list[j]);
                        } else if j > i {
                            assert(new_list[j] == old_list[j - 1]);
                        }
                    }
                }
            }
        }
    }

    /// The servers of `entries`, keyed by name: entries with an empty name are
    /// dropped, and of entries sharing a name the last one counts.
    pub fn from_entries(entries: Vec<ServerDefinition>) -> (r: Self)
        ensures
            r.wf(),
            r.as_map() == entries_map(views(entries@)),
    {
        let ghost all = views(entries@);
        let mut rest = entries;
        let mut r = ServerDefinitions::new();
        let ghost mut k: int = 0;
        proof {
            assert(all.subrange(0, 0) =~= Seq::<SpecServer>::empty());
            assert(views(rest@) =~= all.subrange(0, all.len() as int));
        }
        while rest.len() > 0
            invariant
                r.wf(),
                0 <= k <= all.len(),
                views(rest@) == all.subrange(k, all.len() as int),
                r.as_map() == entries_map(all.subrange(0, k)),
            decreases rest@.len(),
        {
            let ghost before = rest@;
            let e = rest.remove(0);
            proof {
                assert(before.len() > 0);
                assert(views(before)[0] == before[0]@);
                assert(e == before[0]);
                assert(views(before)[0] == all.subrange(k, all.len() as int)[0]);
                assert(views(before).len() == before.len());
                assert(k < all.len());
                assert(all.subrange(k, all.len() as int)[0] == all[k]);
                assert(e@ == before[0]@);
                assert(e@ == all[k]);
                assert forall|j: int| 0 <= j < views(rest@).len() implies #[trigger] views(rest@)[j] == all.subrange(k + 1, all.len() as int)[j] by {
                    assert(rest@[j] == before[j + 1]);
                    assert(views(rest@)[j] == rest@[j]@);
                    assert(views(before)[j + 1] == before[j + 1]@);
                    assert(views(before)[j + 1] == all.subrange(k, all.len() as int)[j + 1]);
                }
                assert(views(rest@) =~= all.subrange(k + 1, all.len() as int));
                assert(all.subrange(0, k + 1).drop_last() =~= all.subrange(0, k));
            }
            r.insert(e);
            proof {
                k = k + 1;
            }
        }
        proof {
            assert(all.subrange(0, k) =~= all);
        }
        r
    }

    /// The built-in servers: a server on this machine, and Project Meteor's
    /// login page on this machine.
    pub fn load_default() -> (r: Result<Self, ServerDefinitionsError>)
        ensures
            r matches Ok(d) && d.wf() && d.as_map() == entries_map(spec_default_entries()),
    {
        let entries = vec![
            ServerDefinition {
                name: String::from_str("Localhost"),
                address: String::from_str("127.0.0.1"),
                login_url: String::from_str("http://127.0.0.1:54993/login"),
            },
            ServerDefinition {
                name: String::from_str("Project Meteor"),
                address: String::from_str("127.0.0.1"),
                login_url: String::from_str("http://127.0.0.1:8080/login.php"),
            },
        ];
        proof {
            assert(views(entries@) =~= spec_default_entries());
        }
        Ok(Self::from_entries(entries))
    }

    /// The server named `name`.
    pub fn get(&self, name: &str) -> (r: Option<&ServerDefinition>)
        requires
            self.wf(),
        ensures
            r is Some <==> self.as_map().contains_key(name@),
            r matches Some(d) ==> d@ == self.as_map()[name@],
    {
        proof {
            lemma_sorted_map(self@);
        }
        let mut i: usize = 0;
        while i < self.servers.len()
            invariant
                self.wf(),
                i <= self@.len(),
                self@.len() == self.servers@.len(),
                forall|j: int| 0 <= j < i ==> #[trigger] self@[j].name != name@,
            decreases self@.len() - i,
        {
            if same_text(self.servers[i].name.as_str(), name) {
                proof {
                    lemma_sorted_map(self@);
                    assert(self@[i as int] == self.servers@[i as int]@);
                    assert(self@[i as int].name == name@);
                    assert(list_map(self@).contains_key(name@));
                    assert(list_map(self@)[self@[i as int].name] == self@[i as int]);
                }
                return Some(&self.servers[i]);
            }
            proof {
                assert(self@[i as int] == self.servers@[i as int]@);
            }
            i += 1;
        }
        None
    }

    /// The servers in name order.
    pub fn iter(&self) -> (r: &[ServerDefinition])
        requires
            self.wf(),
        ensures
            views(r@) == self@,
            r@.len() == self.as_map().dom().len(),
            forall|i: int| 0 <= i < r@.len() ==> self.as_map().contains_key(#[trigger] r@[i].name@)
                && self.as_map()[r@[i].name@] == r@[i]@,
            forall|i: int, j: int| 0 <= i < j < r@.len() ==> seq_lt(#[trigger] r@[i].name@, #[trigger] r@[j].name@),
    {
        proof {
            lemma_sorted_map(self@);
        }
        let r = self.servers.as_slice();
        proof {
            assert(r@ == self.servers@);
            assert(views(r@) == self@);
            assert forall|i: int| 0 <= i < r@.len() implies self.as_map().contains_key(#[trigger] r@[i].name@)
                && self.as_map()[r@[i].name@] == r@[i]@ by {
                assert(r@[i]@ == self@[i]);
                assert(list_map(self@)[self@[i].name] == self@[i]);
                assert(self@[i].name == r@[i].name@);
            }
            assert forall|i: int, j: int| 0 <= i < j < r@.len() implies seq_lt(#[trigger] r@[i].name@, #[trigger] r@[j].name@) by {
                assert(r@[i]@ == self@[i]);
                assert(r@[j]@ == self@[j]);
            }
        }
        r
    }

    /// Whether there are no servers.
    pub fn is_empty(&self) -> (r: bool)
        requires
            self.wf(),
        ensures
            r == (self.as_map().dom().len() == 0),
    {
        proof {
            lemma_sorted_map(self@);
        }
        self.servers.len() == 0
    }

    /// How many servers there are.
    pub fn len(&self) -> (r: usize)
        requires
            self.wf(),
        ensures
            r == self.as_map().dom().len(),
    {
        proof {
            lemma_sorted_map(self@);
        }
        self.servers.len()
    }
}

/// Why the server list could not be had.
#[derive(Debug, Clone, PartialEq, Eq)]
pub enum ServerDefinitionsError {
    /// The servers document is not valid TOML of the expected shape.
    Parse { message: String },
}

/// The built-in servers, in the order they are listed.
pub open spec fn spec_default_entries() -> Seq<SpecServer> {
    seq![
        SpecServer {
            name: "Localhost"@,
            address: "127.0.0.1"@,
            login_url: "http://127.0.0.1:54993/login"@,
        },
        SpecServer {
            name: "Project Meteor"@,
            address: "127.0.0.1"@,
            login_url: "http://127.0.0.1:8080/login.php"@,
        },
    ]
}

/// Loading keeps, under each non-empty name, the last entry that carries
/// it; the empty name and names no entry carries are absent.
pub proof fn lemma_entries_map_last_wins(entries: Seq<SpecServer>, name: Seq<char>)
    ensures
        entries_map(entries).contains_key(name) <==> (name.len() > 0 && exists|i: int|
            0 <= i < entries.len() && #[trigger] entries[i].name == name),
        entries_map(entries).contains_key(name) ==> exists|i: int|
            0 <= i < entries.len() && #[trigger] entries[i].name == name && entries_map(entries)[name] == entries[i]
                && forall|j: int| i < j < entries.len() ==> #[trigger] entries[j].name != name,
    decreases entries.len(),
{
    if entries.len() > 0 {
        let init = entries.drop_last();
        let last = entries.last();
        lemma_entries_map_last_wins(init, name);
        let n = entries.len() - 1;
        if last.name.len() > 0 && last.name == name {
            assert(entries[n].name == name);
        } else {
            if exists|i: int| 0 <= i < entries.len() && #[trigger] entries[i].name == name {
                let i = choose|i: int| 0 <= i < entries.len() && #[trigger] entries[i].name == name;
                if i < n {
                    assert(init[i].name == name);
                }
            }
            if entries_map(entries).contains_key(name) {
                let i = choose|i: int|
                    0 <= i < init.len() && #[trigger] init[i].name == name && entries_map(init)[name] == init[i]
                        && forall|j: int| i < j < init.len() ==> #[trigger] init[j].name != name;
                assert(entries[i] == init[i]);
                assert forall|j: int| i < j < entries.len() implies #[trigger] entries[j].name != name by {
                    if j < n {
                        assert(entries[j] == init[j]);
                    }
                }
            }
            if exists|i: int| 0 <= i < init.len() && #[trigger] init[i].name == name {
                let i = choose|i: int| 0 <= i < init.len() && #[trigger] init[i].name == name;
                assert(entries[i] == init[i]);
            }
        }
    }
}

/// Reading back after `insert`: the inserted server is found under its
/// name, and every other name finds what it found before.
pub proof fn lemma_lookup_after_insert(before: Map<Seq<char>, SpecServer>, server: SpecServer, name: Seq<char>)
    ensures
        before.insert(server.name, server).contains_key(server.name),
        before.insert(server.name, server)[server.name] == server,
        name != server.name ==> before.insert(server.name, server).contains_key(name) == before.contains_key(name),
        name != server.name && before.contains_key(name) ==> before.insert(server.name, server)[name] == before[name],
{
}

} // verus!
