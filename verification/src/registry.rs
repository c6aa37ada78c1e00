//! The table of live connections, by name.

use vstd::prelude::*;
use vstd::string::*;
use crate::wire::McpError;

verus! {

/// A named connection.
#[derive(Debug)]
pub struct Entry<C> {
    pub name: String,
    pub connection: C,
}

/// The connections that are live, each under a name of its own.
#[derive(Debug)]
pub struct Registry<C> {
    entries: Vec<Entry<C>>,
}

/// No name occurs twice among the entries.
pub open spec fn distinct_names<C>(s: Seq<Entry<C>>) -> bool {
    forall|i: int, j: int| 0 <= i < j < s.len() ==> s[i].name@ != s[j].name@
}

/// Whether some entry carries `name`.
pub open spec fn has_name<C>(s: Seq<Entry<C>>, name: Seq<char>) -> bool {
    exists|i: int| 0 <= i < s.len() && #[trigger] s[i].name@ == name
}

/// The entries as a map from name to connection.
pub open spec fn entries_map<C>(s: Seq<Entry<C>>) -> Map<Seq<char>, C> {
    Map::new(
        |name: Seq<char>| has_name(s, name),
        |name: Seq<char>| s[choose|i: int| 0 <= i < s.len() && #[trigger] s[i].name@ == name].connection,
    )
}

/// Whether a connect under `name` is accepted: only a name that is free is.
pub open spec fn accepts<C>(table: Map<Seq<char>, C>, name: Seq<char>) -> bool {
    !table.dom().contains(name)
}

/// The table after a connect under `name` whose connection came up as `connection`.
pub open spec fn after_connect<C>(table: Map<Seq<char>, C>, name: Seq<char>, connection: C) -> Map<
    Seq<char>,
    C,
> {
    if accepts(table, name) {
        table.insert(name, connection)
    } else {
        table
    }
}

/// The table after a disconnect of `name`.
pub open spec fn after_disconnect<C>(table: Map<Seq<char>, C>, name: Seq<char>) -> Map<Seq<char>, C> {
    table.remove(name)
}

/// A connect under a free name followed by a disconnect of that name leaves the table as
/// it was; a table that was empty is empty again.
pub proof fn lemma_connect_then_disconnect<C>(table: Map<Seq<char>, C>, name: Seq<char>, connection: C)
    requires
        accepts(table, name),
    ensures
        after_disconnect(after_connect(table, name, connection), name) == table,
        table == Map::<Seq<char>, C>::empty() ==> after_disconnect(
            after_connect(table, name, connection),
            name,
        ) == Map::<Seq<char>, C>::empty(),
{
    assert(table.insert(name, connection).remove(name) =~= table);
}

/// A second connect under a name that is connected is refused and changes nothing: the
/// name still stands for the first connection.
pub proof fn lemma_second_connect_refused<C>(
    table: Map<Seq<char>, C>,
    name: Seq<char>,
    first: C,
    second: C,
)
    requires
        accepts(table, name),
    ensures
        !accepts(after_connect(table, name, first), name),
        after_connect(after_connect(table, name, first), name, second) == after_connect(
            table,
            name,
            first,
        ),
        after_connect(after_connect(table, name, first), name, second)[name] == first,
{
}

/// After a disconnect the name is free, and every other name stands for what it stood
/// for.
pub proof fn lemma_disconnect_frees_name<C>(table: Map<Seq<char>, C>, name: Seq<char>)
    ensures
        accepts(after_disconnect(table, name), name),
        forall|other: Seq<char>|
            other != name && table.dom().contains(other) ==> #[trigger] after_disconnect(
                table,
                name,
            ).dom().contains(other) && after_disconnect(table, name)[other] == table[other],
{
}

proof fn lemma_entry_in_map<C>(s: Seq<Entry<C>>, i: int)
    requires
        distinct_names(s),
        0 <= i < s.len(),
    ensures
        entries_map(s).dom().contains(s[i].name@),
        entries_map(s)[s[i].name@] == s[i].connection,
{
    assert(has_name(s, s[i].name@));
    let k = choose|k: int| 0 <= k < s.len() && #[trigger] s[k].name@ == s[i].name@;
    if k < i {
        assert(s[k].name@ != s[i].name@);
    } else if i < k {
        assert(s[i].name@ != s[k].name@);
    }
}

proof fn lemma_push_entry<C>(s: Seq<Entry<C>>, entry: Entry<C>)
    requires
        distinct_names(s),
        !has_name(s, entry.name@),
    ensures
        distinct_names(s.push(entry)),
        entries_map(s.push(entry)) == entries_map(s).insert(entry.name@, entry.connection),
{
    let t = s.push(entry);
    assert forall|i: int, j: int| 0 <= i < j < t.len() implies t[i].name@ != t[j].name@ by {
        if j == s.len() {
            assert(s[i].name@ == t[i].name@);
        }
    }
    assert forall|name: Seq<char>| has_name(t, name) <==> (has_name(s, name) || name
        == entry.name@) by {
        if has_name(t, name) {
            let k = choose|k: int| 0 <= k < t.len() && #[trigger] t[k].name@ == name;
            if k < s.len() {
                assert(s[k].name@ == name);
            }
        }
        if has_name(s, name) {
            let k = choose|k: int| 0 <= k < s.len() && #[trigger] s[k].name@ == name;
            assert(t[k].name@ == name);
        }
        if name == entry.name@ {
            assert(t[s.len() as int].name@ == name);
        }
    }
    assert forall|name: Seq<char>| has_name(t, name) implies #[trigger] entries_map(t)[name]
        == entries_map(s).insert(entry.name@, entry.connection)[name] by {
        let k = choose|k: int| 0 <= k < t.len() && #[trigger] t[k].name@ == name;
        lemma_entry_in_map(t, k);
        if k < s.len() {
            assert(s[k].name@ == name);
            lemma_entry_in_map(s, k);
        }
    }
    assert(entries_map(t) =~= entries_map(s).insert(entry.name@, entry.connection));
}

proof fn lemma_remove_entry<C>(s: Seq<Entry<C>>, i: int)
    requires
        distinct_names(s),
        0 <= i < s.len(),
    ensures
        distinct_names(s.remove(i)),
        entries_map(s.remove(i)) == entries_map(s).remove(s[i].name@),
{
    let t = s.remove(i);
    assert forall|a: int, b: int| 0 <= a < b < t.len() implies t[a].name@ != t[b].name@ by {
        let sa = if a < i { a } else { a + 1 };
        let sb = if b < i { b } else { b + 1 };
        assert(t[a] == s[sa]);
        assert(t[b] == s[sb]);
    }
    assert forall|name: Seq<char>| has_name(t, name) <==> (has_name(s, name) && name
        != s[i].name@) by {
        if has_name(t, name) {
            let k = choose|k: int| 0 <= k < t.len() && #[trigger] t[k].name@ == name;
            let sk = if k < i { k } else { k + 1 };
            assert(t[k] == s[sk]);
            assert(s[sk].name@ == name);
            if sk < i {
                assert(s[sk].name@ != s[i].name@);
            } else {
                assert(s[i].name@ != s[sk].name@);
            }
        }
        if has_name(s, name) && name != s[i].name@ {
            let k = choose|k: int| 0 <= k < s.len() && #[trigger] s[k].name@ == name;
            let tk = if k < i { k } else { k - 1 };
            assert(t[tk] == s[k]);
            assert(t[tk].name@ == name);
        }
    }
    assert forall|name: Seq<char>| has_name(t, name) implies #[trigger] entries_map(t)[name]
        == entries_map(s)[name] by {
        let k = choose|k: int| 0 <= k < t.len() && #[trigger] t[k].name@ == name;
        let sk = if k < i { k } else { k + 1 };
        assert(t[k] == s[sk]);
        lemma_entry_in_map(t, k);
        lemma_entry_in_map(s, sk);
    }
    assert(entries_map(t) =~= entries_map(s).remove(s[i].name@));
}

proof fn lemma_entries_count<C>(s: Seq<Entry<C>>)
    requires
        distinct_names(s),
    ensures
        entries_map(s).dom().finite(),
        entries_map(s).dom().len() == s.len(),
    decreases s.len(),
{
    if s.len() == 0 {
        assert(entries_map(s).dom() =~= Set::<Seq<char>>::empty());
    } else {
        let t = s.drop_last();
        let last = s.last();
        assert(distinct_names(t));
        assert(!has_name(t, last.name@)) by {
            if has_name(t, last.name@) {
                let k = choose|k: int| 0 <= k < t.len() && #[trigger] t[k].name@ == last.name@;
                assert(s[k].name@ != s[s.len() - 1].name@);
            }
        }
        lemma_entries_count(t);
        lemma_push_entry(t, last);
        assert(t.push(last) =~= s);
        assert(entries_map(s).dom() =~= entries_map(t).dom().insert(last.name@));
        assert(!entries_map(t).dom().contains(last.name@));
    }
}

impl<C> View for Registry<C> {
    type V = Map<Seq<char>, C>;

    closed spec fn view(&self) -> Map<Seq<char>, C> {
        entries_map(self.entries@)
    }
}

impl<C> Registry<C> {
    /// The table is sound: no name is entered twice.
    pub closed spec fn wf(&self) -> bool {
        distinct_names(self.entries@)
    }

    /// An empty table.
    pub fn new() -> (r: Self)
        ensures
            r.wf(),
            r@ == Map::<Seq<char>, C>::empty(),
    {
        let r = Registry { entries: Vec::new() };
        assert(r@ =~= Map::<Seq<char>, C>::empty());
        r
    }

    fn position(&self, name: &String) -> (r: Option<usize>)
        ensures
            match r {
                Some(i) => i < self.entries@.len() && self.entries@[i as int].name@ == name@,
                None => !has_name(self.entries@, name@),
            },
    {
        let mut i: usize = 0;
        while i < self.entries.len()
            invariant
                i <= self.entries@.len(),
                forall|k: int| 0 <= k < i ==> self.entries@[k].name@ != name@,
            decreases self.entries@.len() - i,
        {
            if self.entries[i].name == *name {
                return Some(i);
            }
            i += 1;
        }
        None
    }

    /// The number of live connections.
    pub fn len(&self) -> (n: usize)
        requires
            self.wf(),
        ensures
            self@.dom().finite(),
            n == self@.dom().len(),
    {
        proof {
            lemma_entries_count(self.entries@);
        }
        self.entries.len()
    }

    /// Whether no connection is live.
    pub fn is_empty(&self) -> (r: bool)
        requires
            self.wf(),
        ensures
            r == (self@ == Map::<Seq<char>, C>::empty()),
    {
        proof {
            if self.entries@.len() > 0 {
                lemma_entry_in_map(self.entries@, 0);
            } else {
                assert(self@ =~= Map::<Seq<char>, C>::empty());
            }
        }
        self.entries.len() == 0
    }

    /// Whether `name` is connected.
    pub fn contains(&self, name: &str) -> (r: bool)
        requires
            self.wf(),
        ensures
            r == self@.dom().contains(name@),
            r == !accepts(self@, name@),
    {
        let key = name.to_owned();
        self.position(&key).is_some()
    }

    /// Enters `connection` under `name` if the name is free. Where it is taken the table
    /// stays as it is, and the connection comes back with the reason.
    pub fn insert(&mut self, name: String, connection: C) -> (r: Result<(), (McpError, C)>)
        requires
            old(self).wf(),
        ensures
            final(self).wf(),
            final(self)@ == after_connect(old(self)@, name@, connection),
            match r {
                Ok(()) => accepts(old(self)@, name@),
                Err(back) => {
                    &&& !accepts(old(self)@, name@)
                    &&& back.0 == McpError::AlreadyConnected
                    &&& back.1 == connection
                },
            },
    {
        match self.position(&name) {
            Some(_) => Err((McpError::AlreadyConnected, connection)),
            None => {
                let entry = Entry { name, connection };
                proof {
                    lemma_push_entry(self.entries@, entry);
                }
                self.entries.push(entry);
                Ok(())
            },
        }
    }

    /// Takes the connection of `name` out of the table, for it to be shut down.
    pub fn remove(&mut self, name: &str) -> (r: Result<C, McpError>)
        requires
            old(self).wf(),
        ensures
            final(self).wf(),
            match r {
                Ok(connection) => {
                    &&& old(self)@.dom().contains(name@)
                    &&& connection == old(self)@[name@]
                    &&& final(self)@ == after_disconnect(old(self)@, name@)
                },
                Err(e) => {
                    &&& !old(self)@.dom().contains(name@)
                    &&& e == McpError::NotConnected
                    &&& final(self)@ == old(self)@
                },
            },
    {
        let key = name.to_owned();
        match self.position(&key) {
            Some(i) => {
                proof {
                    lemma_entry_in_map(self.entries@, i as int);
                    lemma_remove_entry(self.entries@, i as int);
                }
                let entry = self.entries.remove(i);
                Ok(entry.connection)
            },
            None => Err(McpError::NotConnected),
        }
    }

    /// The connection of `name`, for an operation to be applied to it.
    pub fn get(&self, name: &str) -> (r: Result<&C, McpError>)
        requires
            self.wf(),
        ensures
            match r {
                Ok(connection) => self@.dom().contains(name@) && *connection == self@[name@],
                Err(e) => !self@.dom().contains(name@) && e == McpError::NotConnected,
            },
    {
        let key = name.to_owned();
        match self.position(&key) {
            Some(i) => {
                proof {
                    lemma_entry_in_map(self.entries@, i as int);
                }
                Ok(&self.entries[i].connection)
            },
            None => Err(McpError::NotConnected),
        }
    }

    /// The names that are connected, each once, in no particular order.
    pub fn names(&self) -> (r: Vec<String>)
        requires
            self.wf(),
        ensures
            forall|i: int, j: int| 0 <= i < j < r@.len() ==> r@[i]@ != r@[j]@,
            forall|i: int| 0 <= i < r@.len() ==> self@.dom().contains(#[trigger] r@[i]@),
            forall|name: Seq<char>|
                self@.dom().contains(name) ==> exists|i: int|
                    0 <= i < r@.len() && #[trigger] r@[i]@ == name,
    {
        let mut out: Vec<String> = Vec::new();
        let mut i: usize = 0;
        while i < self.entries.len()
            invariant
                i <= self.entries@.len(),
                out@.len() == i,
                forall|k: int| 0 <= k < i ==> (#[trigger] out@[k])@ == self.entries@[k].name@,
            decreases self.entries@.len() - i,
        {
            out.push(self.entries[i].name.clone());
            i += 1;
        }
        proof {
            assert forall|k: int| 0 <= k < out@.len() implies self@.dom().contains(
                #[trigger] out@[k]@,
            ) by {
                lemma_entry_in_map(self.entries@, k);
            }
            assert forall|name: Seq<char>| self@.dom().contains(name) implies exists|k: int|
                0 <= k < out@.len() && #[trigger] out@[k]@ == name by {
                let k = choose|k: int|
                    0 <= k < self.entries@.len() && #[trigger] self.entries@[k].name@ == name;
                assert(out@[k]@ == name);
            }
        }
        out
    }
}

} // verus!
