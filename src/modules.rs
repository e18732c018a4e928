use vstd::prelude::*;

verus! {

/// How one class or id name of a stylesheet was treated.
#[derive(Debug)]
pub enum CssClassName {
    /// Scoped to the file; `name` is the generated replacement.
    Local { name: String },
    /// Left as written; `name` is the original.
    Global { name: String },
    /// Taken from another module: `name` there, `from` the module specifier.
    Import { name: String, from: String },
}

pub ghost enum ClassNameView {
    Local { name: Seq<char> },
    Global { name: Seq<char> },
    Import { name: Seq<char>, from: Seq<char> },
}

impl View for CssClassName {
    type V = ClassNameView;

    open spec fn view(&self) -> ClassNameView {
        match self {
            CssClassName::Local { name } => ClassNameView::Local { name: name@ },
            CssClassName::Global { name } => ClassNameView::Global { name: name@ },
            CssClassName::Import { name, from } => ClassNameView::Import {
                name: name@,
                from: from@,
            },
        }
    }
}

/// The treatments of one original name, in the order they first occurred.
#[derive(Debug)]
pub struct ClassEntry {
    pub name: String,
    pub classes: Vec<CssClassName>,
}

/// A map from original names to their treatments. Its keys are unique and
/// stand in the order in which each first occurred.
#[derive(Debug)]
pub struct ClassMapping {
    entries: Vec<ClassEntry>,
}

pub type EntryView = (Seq<char>, Seq<ClassNameView>);

pub open spec fn classes_view(v: Seq<CssClassName>) -> Seq<ClassNameView> {
    v.map_values(|c: CssClassName| c@)
}

impl View for ClassEntry {
    type V = EntryView;

    open spec fn view(&self) -> EntryView {
        (self.name@, classes_view(self.classes@))
    }
}

pub open spec fn entries_view(v: Seq<ClassEntry>) -> Seq<EntryView> {
    v.map_values(|e: ClassEntry| e@)
}

impl View for ClassMapping {
    type V = Seq<EntryView>;

    closed spec fn view(&self) -> Seq<EntryView> {
        entries_view(self.entries@)
    }
}

/// No two entries share a key.
pub open spec fn keys_unique(m: Seq<EntryView>) -> bool {
    forall|i: int, j: int| 0 <= i < j < m.len() ==> (#[trigger] m[i]).0 != (#[trigger] m[j]).0
}

pub open spec fn has_key(m: Seq<EntryView>, key: Seq<char>) -> bool {
    exists|i: int| 0 <= i < m.len() && (#[trigger] m[i]).0 == key
}

/// The position of `key` in a map that has it.
pub open spec fn key_position(m: Seq<EntryView>, key: Seq<char>) -> int {
    choose|i: int| 0 <= i < m.len() && (#[trigger] m[i]).0 == key
}

/// The map after `key` was seen treated as `c`: a new key goes to the end; a
/// treatment that the key already has is not repeated.
pub open spec fn record_spec(m: Seq<EntryView>, key: Seq<char>, c: ClassNameView) -> Seq<
    EntryView,
> {
    if has_key(m, key) {
        let i = key_position(m, key);
        if m[i].1.contains(c) {
            m
        } else {
            m.update(i, (key, m[i].1.push(c)))
        }
    } else {
        m.push((key, seq![c]))
    }
}

/// The map built from `records`, seen in order.
pub open spec fn mapping_of(records: Seq<(Seq<char>, ClassNameView)>) -> Seq<EntryView>
    decreases records.len(),
{
    if records.len() == 0 {
        Seq::empty()
    } else {
        let (k, c) = records.last();
        record_spec(mapping_of(records.drop_last()), k, c)
    }
}

pub open spec fn records_view(v: Seq<(String, CssClassName)>) -> Seq<(Seq<char>, ClassNameView)> {
    v.map_values(|r: (String, CssClassName)| (r.0@, r.1@))
}

fn same_string(a: &String, b: &String) -> (r: bool)
    ensures
        r == (a@ == b@),
{
    *a == *b
}

/// Whether two treatments are the same.
pub fn same_class(a: &CssClassName, b: &CssClassName) -> (r: bool)
    ensures
        r == (a@ == b@),
{
    match (a, b) {
        (CssClassName::Local { name: x }, CssClassName::Local { name: y }) => same_string(x, y),
        (CssClassName::Global { name: x }, CssClassName::Global { name: y }) => same_string(x, y),
        (
            CssClassName::Import { name: x, from: f },
            CssClassName::Import { name: y, from: g },
        ) => same_string(x, y) && same_string(f, g),
        _ => false,
    }
}

fn contains_class(v: &Vec<CssClassName>, c: &CssClassName) -> (r: bool)
    ensures
        r == classes_view(v@).contains(c@),
{
    let mut i: usize = 0;
    while i < v.len()
        invariant
            i <= v@.len(),
            forall|k: int| 0 <= k < i ==> v@[k]@ != c@,
        decreases v@.len() - i,
    {
        if same_class(&v[i], c) {
            proof {
                assert(classes_view(v@)[i as int] == c@);
            }
            return true;
        }
        i = i + 1;
    }
    proof {
        if classes_view(v@).contains(c@) {
            let k = choose|k: int| 0 <= k < classes_view(v@).len() && classes_view(v@)[k] == c@;
            assert(v@[k]@ == c@);
        }
    }
    false
}

impl ClassMapping {
    /// A map with no entries.
    pub fn new() -> (r: ClassMapping)
        ensures
            r@ == Seq::<EntryView>::empty(),
    {
        let r = ClassMapping { entries: Vec::new() };
        proof {
            assert(r@ =~= Seq::<EntryView>::empty());
        }
        r
    }

    /// The entries, in the order their keys first occurred.
    pub fn entries(&self) -> (r: &Vec<ClassEntry>)
        ensures
            entries_view(r@) == self@,
    {
        &self.entries
    }

    fn find(&self, key: &String) -> (r: Option<usize>)
        ensures
            match r {
                Some(i) => i < self@.len() && self@[i as int].0 == key@,
                None => !has_key(self@, key@),
            },
    {
        let mut i: usize = 0;
        while i < self.entries.len()
            invariant
                i <= self.entries@.len(),
                forall|k: int| 0 <= k < i ==> self.entries@[k].name@ != key@,
            decreases self.entries@.len() - i,
        {
            if same_string(&self.entries[i].name, key) {
                return Some(i);
            }
            i = i + 1;
        }
        proof {
            if has_key(self@, key@) {
                let k = choose|k: int| 0 <= k < self@.len() && (#[trigger] self@[k]).0 == key@;
                assert(self.entries@[k].name@ == key@);
            }
        }
        None
    }

    /// Notes that `key` was treated as `c`.
    pub fn record(&mut self, key: String, c: CssClassName)
        requires
            keys_unique(old(self)@),
        ensures
            keys_unique(final(self)@),
            final(self)@ == record_spec(old(self)@, key@, c@),
    {
        let ghost m = self@;
        match self.find(&key) {
            None => {
                let ghost cv = c@;
                let mut classes: Vec<CssClassName> = Vec::new();
                classes.push(c);
                let entry = ClassEntry { name: key, classes };
                proof {
                    assert(classes_view(entry.classes@) =~= seq![cv]);
                }
                self.entries.push(entry);
                proof {
                    assert(self@ =~= m.push((key@, seq![cv])));
                    assert(keys_unique(self@)) by {
                        assert forall|i: int, j: int| 0 <= i < j < self@.len() implies (
                        #[trigger] self@[i]).0 != (#[trigger] self@[j]).0 by {
                            if j == m.len() {
                                assert(self@[i] == m[i]);
                            } else {
                                assert(self@[i] == m[i] && self@[j] == m[j]);
                            }
                        }
                    }
                }
            },
            Some(i) => {
                proof {
                    let p = key_position(m, key@);
                    assert(has_key(m, key@));
                    assert(m[p].0 == key@);
                    assert(p == i as int);
                }
                if !contains_class(&self.entries[i].classes, &c) {
                    let ghost cv = c@;
                    let mut entry = self.entries.remove(i);
                    let ghost old_classes = classes_view(entry.classes@);
                    entry.classes.push(c);
                    proof {
                        assert(classes_view(entry.classes@) =~= old_classes.push(cv));
                    }
                    self.entries.insert(i, entry);
                    proof {
                        assert(self@ =~= m.update(i as int, (key@, m[i as int].1.push(cv))));
                        assert(keys_unique(self@)) by {
                            assert forall|a: int, b: int| 0 <= a < b < self@.len() implies (
                            #[trigger] self@[a]).0 != (#[trigger] self@[b]).0 by {
                                assert(self@[a].0 == m[a].0);
                                assert(self@[b].0 == m[b].0);
                            }
                        }
                    }
                }
            },
        }
    }

    /// The map built from `records`, seen in order.
    pub fn from_records(records: Vec<(String, CssClassName)>) -> (r: ClassMapping)
        ensures
            keys_unique(r@),
            r@ == mapping_of(records_view(records@)),
    {
        let mut m = ClassMapping::new();
        let ghost all = records_view(records@);
        let ghost n = records@.len();
        let mut rest = records;
        proof {
            assert(all.take(0) =~= Seq::<(Seq<char>, ClassNameView)>::empty());
            assert(rest@ =~= records@.skip(0));
        }
        while rest.len() > 0
            invariant
                n == records@.len(),
                all == records_view(records@),
                rest@.len() <= n,
                rest@ == records@.skip(n - rest@.len()),
                keys_unique(m@),
                m@ == mapping_of(all.take(n - rest@.len())),
            decreases rest@.len(),
        {
            let ghost done = n - rest@.len();
            let (k, c) = rest.remove(0);
            proof {
                assert(rest@ =~= records@.skip(done + 1));
                let next = all.take(done + 1);
                assert(next.drop_last() =~= all.take(done));
                assert(next.last() == all[done]);
                assert(records@[done] == records@.skip(done)[0]);
                assert(all[done] == (k@, c@));
            }
            m.record(k, c);
        }
        proof {
            assert(all.take(n as int) =~= all);
        }
        m
    }
}

} // verus!
