//! Symbol table: qualified name to node id, with the defining file of each symbol.
use vstd::prelude::*;
use crate::model::NodeId;
use crate::text::str_eq;

verus! {

/// One definition: (qualified name, node id, defining file).
pub type SymbolRecord = (Seq<char>, NodeId, Seq<char>);

/// The id bound to `name` by the latest definition, if any.
pub open spec fn lookup_in(s: Seq<SymbolRecord>, name: Seq<char>) -> Option<NodeId>
    decreases s.len(),
{
    if s.len() == 0 {
        None
    } else if s.last().0 == name {
        Some(s.last().1)
    } else {
        lookup_in(s.drop_last(), name)
    }
}

/// For each definition made in `file` among `s`, in insertion order, the id
/// its name is bound to in `all` (its own id should the name be unbound there).
pub open spec fn bound_ids(s: Seq<SymbolRecord>, all: Seq<SymbolRecord>, file: Seq<char>) -> Seq<NodeId>
    decreases s.len(),
{
    if s.len() == 0 {
        Seq::empty()
    } else if s.last().2 == file {
        bound_ids(s.drop_last(), all, file).push(
            match lookup_in(all, s.last().0) {
                Some(id) => id,
                None => s.last().1,
            },
        )
    } else {
        bound_ids(s.drop_last(), all, file)
    }
}

/// The current bindings of the names `file` defined, in insertion order.
pub open spec fn ids_in_file(s: Seq<SymbolRecord>, file: Seq<char>) -> Seq<NodeId> {
    bound_ids(s, s, file)
}

/// `file` has defined `name` (some record of `s` says so).
pub open spec fn defines(s: Seq<SymbolRecord>, file: Seq<char>, name: Seq<char>) -> bool {
    exists|k: int| 0 <= k < s.len() && (#[trigger] s[k]).2 == file && s[k].0 == name
}

/// Some string of `ns` is `name`.
spec fn listed(ns: Seq<String>, name: Seq<char>) -> bool {
    exists|j: int| 0 <= j < ns.len() && (#[trigger] ns[j])@ == name
}

/// One of the first `i` records of `s` says that `file` defined `name`.
spec fn defined_upto(s: Seq<SymbolRecord>, file: Seq<char>, name: Seq<char>, i: int) -> bool {
    exists|k: int| 0 <= k < i && (#[trigger] s[k]).2 == file && s[k].0 == name
}

/// The records of `s` whose name `file` has not defined according to `all`, in order.
pub open spec fn drop_names(s: Seq<SymbolRecord>, all: Seq<SymbolRecord>, file: Seq<char>) -> Seq<SymbolRecord>
    decreases s.len(),
{
    if s.len() == 0 {
        Seq::empty()
    } else if defines(all, file, s.last().0) {
        drop_names(s.drop_last(), all, file)
    } else {
        drop_names(s.drop_last(), all, file).push(s.last())
    }
}

/// The table once `file` is removed: every name that `file` defined is gone,
/// whichever file defined it last.
pub open spec fn without_file(s: Seq<SymbolRecord>, file: Seq<char>) -> Seq<SymbolRecord> {
    drop_names(s, s, file)
}

/// The records `drop_names` keeps come from `s`, and their names were not
/// defined by `file`.
proof fn lemma_drop_names_subset(s: Seq<SymbolRecord>, all: Seq<SymbolRecord>, f: Seq<char>)
    ensures
        forall|i: int|
            0 <= i < drop_names(s, all, f).len() ==> !defines(all, f, (#[trigger] drop_names(s, all, f)[i]).0)
                && s.contains(drop_names(s, all, f)[i]),
    decreases s.len(),
{
    if s.len() > 0 {
        let p = s.drop_last();
        lemma_drop_names_subset(p, all, f);
        let w = drop_names(p, all, f);
        assert forall|i: int| 0 <= i < w.len() implies !defines(all, f, (#[trigger] w[i]).0) && s.contains(w[i]) by {
            assert(p.contains(w[i]));
            let k = choose|k: int| 0 <= k < p.len() && p[k] == w[i];
            assert(s[k] == w[i]);
        }
        assert(s[s.len() - 1] == s.last());
        if !defines(all, f, s.last().0) {
            let v = drop_names(s, all, f);
            assert(v == w.push(s.last()));
            assert forall|i: int| 0 <= i < v.len() implies !defines(all, f, (#[trigger] v[i]).0) && s.contains(v[i]) by {
                if i < w.len() {
                    assert(v[i] == w[i]);
                }
            }
        }
    }
}

/// Every record of `without_file(s, f)` is a record of `s` whose file is not `f`.
pub proof fn lemma_without_file_subset(s: Seq<SymbolRecord>, f: Seq<char>)
    ensures
        forall|i: int|
            0 <= i < without_file(s, f).len() ==> (#[trigger] without_file(s, f)[i]).2 != f
                && s.contains(without_file(s, f)[i]),
{
    lemma_drop_names_subset(s, s, f);
    assert forall|i: int| 0 <= i < without_file(s, f).len() implies (#[trigger] without_file(s, f)[i]).2 != f
        && s.contains(without_file(s, f)[i]) by {
        let r = without_file(s, f)[i];
        if r.2 == f {
            let k = choose|k: int| 0 <= k < s.len() && s[k] == r;
            assert(defines(s, f, r.0));
        }
    }
}

/// Lookups after dropping the names `file` defined: those names are unbound,
/// the others are bound as before.
proof fn lemma_lookup_drop_names(s: Seq<SymbolRecord>, all: Seq<SymbolRecord>, f: Seq<char>, name: Seq<char>)
    ensures
        defines(all, f, name) ==> lookup_in(drop_names(s, all, f), name) is None,
        !defines(all, f, name) ==> lookup_in(drop_names(s, all, f), name) == lookup_in(s, name),
    decreases s.len(),
{
    if s.len() > 0 {
        let p = s.drop_last();
        lemma_lookup_drop_names(p, all, f, name);
        let d = drop_names(p, all, f);
        if !defines(all, f, s.last().0) {
            let v = drop_names(s, all, f);
            assert(v == d.push(s.last()));
            assert(v.drop_last() =~= d);
            assert(v.last() == s.last());
        }
    }
}

/// Ids made in `file` that `drop_names` keeps: none, when `s` is within `all`.
proof fn lemma_drop_names_file_empty(s: Seq<SymbolRecord>, all: Seq<SymbolRecord>, f: Seq<char>, x: Seq<SymbolRecord>)
    requires
        forall|i: int| 0 <= i < s.len() ==> all.contains(#[trigger] s[i]),
    ensures
        bound_ids(drop_names(s, all, f), x, f).len() == 0,
    decreases s.len(),
{
    if s.len() > 0 {
        let p = s.drop_last();
        assert forall|i: int| 0 <= i < p.len() implies all.contains(#[trigger] p[i]) by {
            assert(p[i] == s[i]);
        }
        lemma_drop_names_file_empty(p, all, f, x);
        assert(all.contains(s[s.len() - 1]));
        if s.last().2 == f {
            let k = choose|k: int| 0 <= k < all.len() && all[k] == s.last();
            assert(defines(all, f, s.last().0));
        }
        let d = drop_names(p, all, f);
        if !defines(all, f, s.last().0) {
            let v = drop_names(s, all, f);
            assert(v == d.push(s.last()));
            assert(v.drop_last() =~= d);
            assert(v.last() == s.last());
        }
    }
}

struct SymbolEntry {
    name: String,
    id: NodeId,
    file: String,
}

/// Maps qualified names to node ids and remembers which file defined each one.
pub struct SymbolTable {
    entries: Vec<SymbolEntry>,
}

spec fn records(v: Seq<SymbolEntry>) -> Seq<SymbolRecord> {
    v.map_values(|e: SymbolEntry| (e.name@, e.id, e.file@))
}

impl View for SymbolTable {
    type V = Seq<SymbolRecord>;

    closed spec fn view(&self) -> Seq<SymbolRecord> {
        records(self.entries@)
    }
}

impl SymbolTable {
    /// An empty table.
    pub fn new() -> (r: SymbolTable)
        ensures
            r@ == Seq::<SymbolRecord>::empty(),
    {
        let r = SymbolTable { entries: Vec::new() };
        assert(r@ =~= Seq::<SymbolRecord>::empty());
        r
    }

    /// Records that `file_path` defines `qualified_name` as `node_id`; a later
    /// definition of the same name takes precedence in lookups.
    pub fn insert(&mut self, qualified_name: String, node_id: NodeId, file_path: String)
        ensures
            final(self)@ == old(self)@.push((qualified_name@, node_id, file_path@)),
    {
        self.entries.push(SymbolEntry { name: qualified_name, id: node_id, file: file_path });
        assert(self@ =~= old(self)@.push((qualified_name@, node_id, file_path@)));
    }

    /// The id of the latest definition of `qualified_name`.
    pub fn lookup(&self, qualified_name: &str) -> (r: Option<NodeId>)
        ensures
            r == lookup_in(self@, qualified_name@),
    {
        let mut i: usize = self.entries.len();
        assert(self@.subrange(0, i as int) =~= self@);
        while i > 0
            invariant
                i <= self@.len(),
                self@.len() == self.entries@.len(),
                lookup_in(self@, qualified_name@) == lookup_in(
                    self@.subrange(0, i as int),
                    qualified_name@,
                ),
            decreases i,
        {
            let ghost sub = self@.subrange(0, i as int);
            assert(sub.drop_last() =~= self@.subrange(0, i - 1));
            assert(sub.last() == self@[i - 1]);
            let e = &self.entries[i - 1];
            if str_eq(e.name.as_str(), qualified_name) {
                return Some(e.id);
            }
            i = i - 1;
        }
        None
    }

    /// For each name `file_path` defined, in insertion order, the id it is bound
    /// to now (a later definition elsewhere takes precedence).
    pub fn symbols_in_file(&self, file_path: &str) -> (r: Vec<NodeId>)
        ensures
            r@ == ids_in_file(self@, file_path@),
    {
        let mut r: Vec<NodeId> = Vec::new();
        let mut i: usize = 0;
        while i < self.entries.len()
            invariant
                i <= self@.len(),
                self@.len() == self.entries@.len(),
                r@ == bound_ids(self@.subrange(0, i as int), self@, file_path@),
            decreases self@.len() - i,
        {
            let ghost sub = self@.subrange(0, i + 1);
            assert(sub.drop_last() =~= self@.subrange(0, i as int));
            assert(sub.last() == self@[i as int]);
            let e = &self.entries[i];
            if str_eq(e.file.as_str(), file_path) {
                let id = match self.lookup(e.name.as_str()) {
                    Some(x) => x,
                    None => e.id,
                };
                r.push(id);
            }
            i = i + 1;
        }
        assert(self@.subrange(0, i as int) =~= self@);
        r
    }

    /// Drops every name that `file_path` defined, whichever file defined it
    /// last; other names stay bound as they were.
    pub fn remove_file(&mut self, file_path: &str)
        ensures
            final(self)@ == without_file(old(self)@, file_path@),
            forall|name: Seq<char>|
                defines(old(self)@, file_path@, name) ==> lookup_in(final(self)@, name) is None,
            forall|name: Seq<char>|
                !defines(old(self)@, file_path@, name) ==> lookup_in(final(self)@, name) == lookup_in(
                    old(self)@,
                    name,
                ),
            ids_in_file(final(self)@, file_path@).len() == 0,
    {
        let mut names: Vec<String> = Vec::new();
        let mut i: usize = 0;
        while i < self.entries.len()
            invariant
                i <= self@.len(),
                self@.len() == self.entries@.len(),
                forall|name: Seq<char>|
                    #[trigger] listed(names@, name) <==> defined_upto(self@, file_path@, name, i as int),
            decreases self@.len() - i,
        {
            let e = &self.entries[i];
            let ghost before = names@;
            if str_eq(e.file.as_str(), file_path) {
                names.push(e.name.clone());
            }
            proof {
                assert forall|name: Seq<char>|
                    #[trigger] listed(names@, name) <==> defined_upto(self@, file_path@, name, i + 1) by {
                    if listed(names@, name) {
                        let j = choose|j: int| 0 <= j < names@.len() && (#[trigger] names@[j])@ == name;
                        if j < before.len() {
                            assert(before[j]@ == name);
                            assert(listed(before, name));
                            let k = choose|k: int| 0 <= k < i && (#[trigger] self@[k]).2 == file_path@ && self@[k].0 == name;
                        } else {
                            assert(self@[i as int].0 == name);
                        }
                    }
                    if defined_upto(self@, file_path@, name, i + 1) {
                        let k = choose|k: int| 0 <= k < i + 1 && (#[trigger] self@[k]).2 == file_path@ && self@[k].0 == name;
                        if k < i {
                            assert(defined_upto(self@, file_path@, name, i as int));
                            assert(listed(before, name));
                            let j = choose|j: int| 0 <= j < before.len() && (#[trigger] before[j])@ == name;
                            assert(names@[j] == before[j]);
                        } else {
                            assert(names@[before.len() as int]@ == name);
                        }
                    }
                }
            }
            i = i + 1;
        }
        assert forall|name: Seq<char>| #[trigger] listed(names@, name) <==> defines(self@, file_path@, name) by {
            assert(defined_upto(self@, file_path@, name, self@.len() as int) == defines(self@, file_path@, name));
        }
        let mut kept: Vec<SymbolEntry> = Vec::new();
        let mut i: usize = 0;
        while i < self.entries.len()
            invariant
                i <= self@.len(),
                self@.len() == self.entries@.len(),
                self@ == old(self)@,
                forall|name: Seq<char>| #[trigger] listed(names@, name) <==> defines(self@, file_path@, name),
                records(kept@) == drop_names(self@.subrange(0, i as int), self@, file_path@),
            decreases self@.len() - i,
        {
            let ghost sub = self@.subrange(0, i + 1);
            assert(sub.drop_last() =~= self@.subrange(0, i as int));
            assert(sub.last() == self@[i as int]);
            let e = &self.entries[i];
            let mut found = false;
            let mut j: usize = 0;
            while j < names.len()
                invariant
                    j <= names@.len(),
                    found <==> exists|q: int| 0 <= q < j && (#[trigger] names@[q])@ == e.name@,
                decreases names@.len() - j,
            {
                if str_eq(names[j].as_str(), e.name.as_str()) {
                    found = true;
                }
                j = j + 1;
            }
            assert(found <==> listed(names@, self@[i as int].0));
            assert(found <==> defines(self@, file_path@, self@[i as int].0));
            if !found {
                let ghost before = records(kept@);
                kept.push(SymbolEntry { name: e.name.clone(), id: e.id, file: e.file.clone() });
                assert(records(kept@) =~= before.push(self@[i as int]));
            }
            i = i + 1;
        }
        assert(self@.subrange(0, i as int) =~= self@);
        proof {
            let s = old(self)@;
            assert forall|name: Seq<char>| defines(s, file_path@, name) implies lookup_in(
                drop_names(s, s, file_path@),
                name,
            ) is None by {
                lemma_lookup_drop_names(s, s, file_path@, name);
            }
            assert forall|name: Seq<char>| !defines(s, file_path@, name) implies lookup_in(
                drop_names(s, s, file_path@),
                name,
            ) == lookup_in(s, name) by {
                lemma_lookup_drop_names(s, s, file_path@, name);
            }
            assert forall|k: int| 0 <= k < s.len() implies s.contains(#[trigger] s[k]) by {}
            lemma_drop_names_file_empty(s, s, file_path@, drop_names(s, s, file_path@));
        }
        self.entries = kept;
    }
}

} // verus!
