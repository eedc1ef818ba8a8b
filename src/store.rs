use vstd::prelude::*;

verus! {

/// What the store knows of one character: its name, the client that last
/// wrote it, and the serialized sheet as that client sent it.
pub struct Sheet {
    pub name: Seq<char>,
    pub owner: u32,
    pub payload: Seq<char>,
}

/// One record of the character store.
#[derive(Debug, Clone)]
pub struct CharacterRecord {
    pub name: String,
    pub owner: u32,
    pub payload: String,
}

impl View for CharacterRecord {
    type V = Sheet;

    open spec fn view(&self) -> Sheet {
        Sheet { name: self.name@, owner: self.owner, payload: self.payload@ }
    }
}

/// No two sheets share a name.
pub open spec fn names_unique(s: Seq<Sheet>) -> bool {
    forall|i: int, j: int|
        0 <= i < s.len() && 0 <= j < s.len() && i != j ==> #[trigger] s[i].name != #[trigger] s[j].name
}

/// Whether some sheet of `s` is called `name`.
pub open spec fn has_name(s: Seq<Sheet>, name: Seq<char>) -> bool {
    exists|i: int| 0 <= i < s.len() && #[trigger] s[i].name == name
}

/// The sheets after writing `r`: it takes the place of the sheet with the
/// same name, or comes last when there was none.
pub open spec fn upserted(s: Seq<Sheet>, r: Sheet) -> Seq<Sheet> {
    if has_name(s, r.name) {
        let i = choose|i: int| 0 <= i < s.len() && #[trigger] s[i].name == r.name;
        s.update(i, r)
    } else {
        s.push(r)
    }
}

/// The sheets that `owner` did not write, in their order.
pub open spec fn without_owner(s: Seq<Sheet>, owner: u32) -> Seq<Sheet> {
    s.filter(not_owned_by(owner))
}

pub open spec fn not_owned_by(owner: u32) -> spec_fn(Sheet) -> bool {
    |r: Sheet| r.owner != owner
}

/// The sheets that a list of records holds.
pub open spec fn sheets(v: Seq<CharacterRecord>) -> Seq<Sheet> {
    v.map_values(|r: CharacterRecord| r@)
}

/// The latest sheet of every character, keyed by name. The records keep the
/// order in which their names were first written.
///
/// The records sit in a `Vec` with unique names rather than in a map keyed by
/// `String`: vstd specifies `Vec` fully, while a map with `String` keys gives
/// no usable specification of lookup or insertion, so the store's contracts
/// could not be proved over it.
pub struct CharacterStore {
    records: Vec<CharacterRecord>,
}

impl View for CharacterStore {
    type V = Seq<Sheet>;

    closed spec fn view(&self) -> Seq<Sheet> {
        sheets(self.records@)
    }
}

impl CharacterStore {
    /// No two records share a name.
    #[verifier::type_invariant]
    spec fn names_stay_unique(self) -> bool {
        names_unique(self@)
    }

    pub fn new() -> (r: CharacterStore)
        ensures
            r@ == Seq::<Sheet>::empty(),
            names_unique(r@),
    {
        let records: Vec<CharacterRecord> = Vec::new();
        assert(sheets(records@) =~= Seq::<Sheet>::empty());
        CharacterStore { records }
    }

    pub fn len(&self) -> (r: usize)
        ensures
            r == self@.len(),
    {
        self.records.len()
    }

    /// Every record, in store order.
    pub fn snapshot(&self) -> (r: Vec<CharacterRecord>)
        ensures
            sheets(r@) == self@,
            names_unique(self@),
    {
        proof {
            use_type_invariant(self);
        }
        let mut out: Vec<CharacterRecord> = Vec::new();
        let mut i: usize = 0;
        while i < self.records.len()
            invariant
                i <= self.records@.len(),
                sheets(out@) == self@.subrange(0, i as int),
            decreases self.records@.len() - i,
        {
            let rec = &self.records[i];
            let copy = CharacterRecord { name: rec.name.clone(), owner: rec.owner, payload: rec.payload.clone() };
            assert(self@[i as int] == self.records@[i as int]@);
            let ghost prev = out@;
            out.push(copy);
            assert(sheets(out@) =~= sheets(prev).push(self@[i as int]));
            i = i + 1;
            assert(sheets(out@) =~= self@.subrange(0, i as int));
        }
        assert(self@.subrange(0, i as int) =~= self@);
        out
    }

    /// Writes the sheet `payload` of the character `name` on behalf of
    /// `owner`, replacing the record of the same name with its owner.
    pub fn upsert(&mut self, name: String, owner: u32, payload: String)
        ensures
            names_unique(final(self)@),
            final(self)@ == upserted(old(self)@, Sheet { name: name@, owner, payload: payload@ }),
    {
        proof {
            use_type_invariant(&*self);
        }
        let ghost sheet = Sheet { name: name@, owner, payload: payload@ };
        let ghost before = self@;
        let mut taken = CharacterStore::new();
        std::mem::swap(self, &mut taken);
        let CharacterStore { records: mut records } = taken;
        assert(sheets(records@) == before);
        let mut i: usize = 0;
        while i < records.len()
            invariant
                i <= records@.len(),
                names_unique(before),
                before == old(self)@,
                sheets(records@) == before,
                sheet == (Sheet { name: name@, owner, payload: payload@ }),
                forall|j: int| 0 <= j < i ==> #[trigger] before[j].name != name@,
            decreases records@.len() - i,
        {
            assert(before[i as int] == records@[i as int]@);
            if records[i].name == name {
                assert(before[i as int].name == sheet.name);
                records.set(i, CharacterRecord { name, owner, payload });
                proof {
                    assert(has_name(before, sheet.name));
                    let k = choose|k: int| 0 <= k < before.len() && #[trigger] before[k].name == sheet.name;
                    assert(k == i);
                    assert(sheets(records@) =~= before.update(i as int, sheet));
                    assert(names_unique(sheets(records@)));
                }
                *self = CharacterStore { records };
                return;
            }
            i = i + 1;
        }
        proof {
            assert(!has_name(before, sheet.name));
        }
        let ghost prev = records@;
        records.push(CharacterRecord { name, owner, payload });
        assert(sheets(records@) =~= sheets(prev).push(sheet));
        *self = CharacterStore { records };
    }

    /// Drops every record that `owner` wrote last.
    pub fn remove_owned_by(&mut self, owner: u32)
        ensures
            names_unique(final(self)@),
            final(self)@ == without_owner(old(self)@, owner),
    {
        proof {
            use_type_invariant(&*self);
        }
        let ghost pred = not_owned_by(owner);
        let mut kept: Vec<CharacterRecord> = Vec::new();
        let mut i: usize = 0;
        while i < self.records.len()
            invariant
                i <= self.records@.len(),
                pred == not_owned_by(owner),
                sheets(kept@) == self@.subrange(0, i as int).filter(pred),
            decreases self.records@.len() - i,
        {
            let ghost before = self@.subrange(0, i as int);
            let ghost after = self@.subrange(0, i + 1);
            proof {
                reveal(Seq::filter);
                assert(after.drop_last() =~= before);
                assert(after.last() == self@[i as int]);
                assert(self@[i as int] == self.records@[i as int]@);
                assert(pred(self@[i as int]) == (self.records@[i as int].owner != owner));
            }
            if self.records[i].owner != owner {
                let rec = &self.records[i];
                let ghost prev = kept@;
                kept.push(CharacterRecord { name: rec.name.clone(), owner: rec.owner, payload: rec.payload.clone() });
                assert(sheets(kept@) =~= sheets(prev).push(self@[i as int]));
                assert(sheets(kept@) =~= before.filter(pred).push(self@[i as int]));
            } else {
                assert(sheets(kept@) =~= before.filter(pred));
            }
            i = i + 1;
            assert(self@.subrange(0, i as int) == after);
        }
        assert(self@.subrange(0, i as int) =~= self@);
        proof {
            lemma_filter_keeps_names_unique(self@, pred);
        }
        self.records = kept;
    }
}

/// Filtering keeps the names of the sheets apart.
proof fn lemma_filter_keeps_names_unique(s: Seq<Sheet>, pred: spec_fn(Sheet) -> bool)
    requires
        names_unique(s),
    ensures
        names_unique(s.filter(pred)),
    decreases s.len(),
{
    reveal(Seq::filter);
    if s.len() > 0 {
        let rest = s.drop_last();
        assert(names_unique(rest));
        lemma_filter_keeps_names_unique(rest, pred);
        let f = rest.filter(pred);
        if pred(s.last()) {
            assert forall|i: int| 0 <= i < f.len() implies #[trigger] f[i].name != s.last().name by {
                rest.lemma_filter_contains_rev(pred, f[i]);
                assert(f.contains(f[i]));
                let k = choose|k: int| 0 <= k < rest.len() && rest[k] == f[i];
                assert(s[k] == rest[k]);
            }
            let g = f.push(s.last());
            assert forall|i: int, j: int|
                0 <= i < g.len() && 0 <= j < g.len() && i != j implies #[trigger] g[i].name != #[trigger] g[j].name by {
                if i < f.len() && j < f.len() {
                } else if i < f.len() {
                    assert(f[i].name != s.last().name);
                } else {
                    assert(f[j].name != s.last().name);
                }
            }
        }
    }
}

} // verus!
