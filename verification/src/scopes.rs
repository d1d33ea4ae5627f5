//! The table of resolved scope names.
//!
//! Each scope of a world gets the name of the variable that holds its
//! implementation. The table is filled once, before any code is emitted, and
//! gives no name twice: a scope whose name is taken gets a number behind it.

use vstd::prelude::*;
use crate::schema::{WorldKey, WorldKeyModel};
use crate::text::{
    decimal, lemma_decimal_injective, lemma_prefix_cancel, spec_contains, spec_decimal,
};

verus! {

/// What the table holds of one scope.
pub struct ScopeEntry {
    /// The index of the interface; `None` for the world itself.
    pub id: Option<usize>,
    /// The key under which the world lists the scope; `None` for the world.
    pub key: Option<WorldKey>,
    /// The resolved name.
    pub name: String,
}

/// The model of a [`ScopeEntry`].
pub struct ScopeEntryModel {
    pub id: Option<usize>,
    pub key: Option<WorldKeyModel>,
    pub name: Seq<char>,
}

impl View for ScopeEntry {
    type V = ScopeEntryModel;

    open spec fn view(&self) -> ScopeEntryModel {
        ScopeEntryModel { id: self.id, key: self.key.deep_view(), name: self.name@ }
    }
}

impl DeepView for ScopeEntry {
    type V = ScopeEntryModel;

    open spec fn deep_view(&self) -> ScopeEntryModel {
        self@
    }
}

/// The model of a [`NameTable`]: the entries in the order in which they were
/// made, and the last number that disambiguated a name.
pub struct NameTableModel {
    pub entries: Seq<ScopeEntryModel>,
    pub counter: nat,
}

/// The names of the entries, in order.
pub open spec fn spec_names(entries: Seq<ScopeEntryModel>) -> Seq<Seq<char>> {
    Seq::new(entries.len(), |i: int| entries[i].name)
}

/// The position of the first entry for scope `id` at or after `from`.
pub open spec fn spec_position(entries: Seq<ScopeEntryModel>, id: Option<usize>, from: int) -> Option<
    int,
>
    decreases entries.len() - from,
{
    if from < 0 || from >= entries.len() {
        None
    } else if entries[from].id == id {
        Some(from)
    } else {
        spec_position(entries, id, from + 1)
    }
}

/// The resolved name of scope `id`, where the table holds the scope.
pub open spec fn spec_resolved(t: NameTableModel, id: Option<usize>) -> Option<Seq<char>> {
    match spec_position(t.entries, id, 0) {
        Some(i) => Some(t.entries[i].name),
        None => None,
    }
}

/// The key of scope `id`, where the table holds the scope.
pub open spec fn spec_key_of(t: NameTableModel, id: Option<usize>) -> Option<Option<WorldKeyModel>> {
    match spec_position(t.entries, id, 0) {
        Some(i) => Some(t.entries[i].key),
        None => None,
    }
}

/// `base` with the numeral of `k` behind it.
pub open spec fn spec_candidate(base: Seq<char>, k: nat) -> Seq<char> {
    base + spec_decimal(k)
}

/// The first number from `from` on whose candidate is not in `taken`, looking
/// at `fuel + 1` numbers at most.
pub open spec fn spec_first_free(taken: Seq<Seq<char>>, base: Seq<char>, from: nat, fuel: nat) -> nat
    decreases fuel,
{
    if fuel == 0 || !spec_contains(taken, spec_candidate(base, from)) {
        from
    } else {
        spec_first_free(taken, base, from + 1, (fuel - 1) as nat)
    }
}

/// The name that a scope with the wanted name `base` gets beside the names
/// `taken`, and the counter afterwards: `base` itself where it is free, else
/// `base` with the first number above `counter` that makes it free.
pub open spec fn spec_fresh_name(taken: Seq<Seq<char>>, base: Seq<char>, counter: nat) -> (
    Seq<char>,
    nat,
) {
    if !spec_contains(taken, base) {
        (base, counter)
    } else {
        let k = spec_first_free(taken, base, counter + 1, taken.len());
        (spec_candidate(base, k), k)
    }
}

/// The table after scope `id` has been entered with the wanted name `base`:
/// unchanged where it holds the scope already.
pub open spec fn spec_intern(
    t: NameTableModel,
    id: Option<usize>,
    key: Option<WorldKeyModel>,
    base: Seq<char>,
) -> NameTableModel {
    if spec_position(t.entries, id, 0) is Some {
        t
    } else {
        let (name, counter) = spec_fresh_name(spec_names(t.entries), base, t.counter);
        NameTableModel { entries: t.entries.push(ScopeEntryModel { id, key, name }), counter }
    }
}

/// No scope occurs twice, no name occurs twice, and the counter has grown by
/// no more than the table could make it.
pub open spec fn spec_table_well_formed(t: NameTableModel) -> bool {
    &&& forall|i: int, j: int|
        0 <= i < j < t.entries.len() ==> t.entries[i].id != t.entries[j].id
    &&& forall|i: int, j: int|
        0 <= i < j < t.entries.len() ==> t.entries[i].name != t.entries[j].name
    &&& 2 * t.counter <= t.entries.len() * (t.entries.len() + 1)
}

/// Among `n + 1` values below `n`, two are equal.
pub proof fn lemma_pigeonhole(f: spec_fn(int) -> int, n: nat)
    requires
        forall|j: int| 0 <= j <= n ==> 0 <= #[trigger] f(j) < n,
    ensures
        exists|a: int, b: int| #![trigger f(a), f(b)] 0 <= a < b <= n && f(a) == f(b),
    decreases n,
{
    if n == 0 {
        let x = f(0);
        assert(0 <= x < n);
    } else {
        let last = f(n as int);
        if exists|a: int| 0 <= a < n && #[trigger] f(a) == last {
            let a = choose|a: int| 0 <= a < n && #[trigger] f(a) == last;
            assert(0 <= a < n as int <= n && f(a) == f(n as int));
        } else {
            let g = |j: int| if f(j) == n - 1 { last } else { f(j) };
            assert forall|j: int| 0 <= j <= n - 1 implies 0 <= #[trigger] g(j) < n - 1 by {
                assert(0 <= f(j) < n);
                assert(0 <= f(n as int) < n);
            }
            lemma_pigeonhole(g, (n - 1) as nat);
            let (a, b) = choose|a: int, b: int| #![trigger g(a), g(b)] 0 <= a < b <= n - 1 && g(a) == g(b);
            assert(0 <= f(a) < n);
            assert(0 <= f(b) < n);
            assert(f(a) == f(b));
            assert(0 <= a < b <= n && f(a) == f(b));
        }
    }
}

/// What [`spec_first_free`] stepped over is taken, and it stops early only
/// at a free candidate.
pub proof fn lemma_first_free(taken: Seq<Seq<char>>, base: Seq<char>, from: nat, fuel: nat)
    ensures
        from <= spec_first_free(taken, base, from, fuel) <= from + fuel,
        forall|j: nat|
            from <= j < spec_first_free(taken, base, from, fuel) ==> spec_contains(
                taken,
                #[trigger] spec_candidate(base, j),
            ),
        spec_first_free(taken, base, from, fuel) < from + fuel ==> !spec_contains(
            taken,
            spec_candidate(base, spec_first_free(taken, base, from, fuel)),
        ),
    decreases fuel,
{
    if fuel == 0 || !spec_contains(taken, spec_candidate(base, from)) {
    } else {
        lemma_first_free(taken, base, from + 1, (fuel - 1) as nat);
    }
}

/// Looking at one number more than there are names always finds a free
/// candidate.
pub proof fn lemma_first_free_is_free(taken: Seq<Seq<char>>, base: Seq<char>, from: nat)
    ensures
        !spec_contains(
            taken,
            spec_candidate(base, spec_first_free(taken, base, from, taken.len())),
        ),
{
    let n = taken.len();
    let k = spec_first_free(taken, base, from, n);
    lemma_first_free(taken, base, from, n);
    if spec_contains(taken, spec_candidate(base, k)) {
        assert(k == from + n);
        let f = |j: int|
            choose|i: int| 0 <= i < taken.len() && taken[i] == spec_candidate(base, (from + j) as nat);
        assert forall|j: int| 0 <= j <= n implies 0 <= #[trigger] f(j) < n by {
            assert(spec_contains(taken, spec_candidate(base, (from + j) as nat)));
        }
        lemma_pigeonhole(f, n);
        let (a, b) = choose|a: int, b: int| #![trigger f(a), f(b)] 0 <= a < b <= n && f(a) == f(b);
        assert(spec_contains(taken, spec_candidate(base, (from + a) as nat)));
        assert(spec_contains(taken, spec_candidate(base, (from + b) as nat)));
        assert(taken[f(a)] == spec_candidate(base, (from + a) as nat));
        assert(taken[f(b)] == spec_candidate(base, (from + b) as nat));
        lemma_prefix_cancel(base, spec_decimal((from + a) as nat), spec_decimal((from + b) as nat));
        lemma_decimal_injective((from + a) as nat, (from + b) as nat);
    }
}

/// The name that [`spec_fresh_name`] gives is not taken, and the counter
/// grows by no more than there are names, and one.
pub proof fn lemma_fresh_name(taken: Seq<Seq<char>>, base: Seq<char>, counter: nat)
    ensures
        !spec_contains(taken, spec_fresh_name(taken, base, counter).0),
        counter <= spec_fresh_name(taken, base, counter).1 <= counter + taken.len() + 1,
{
    lemma_first_free(taken, base, counter + 1, taken.len());
    lemma_first_free_is_free(taken, base, counter + 1);
}

/// The position of an entry does not depend on what is entered after it, and
/// a scope that the table does not hold is found where it is entered.
pub proof fn lemma_position_push(
    entries: Seq<ScopeEntryModel>,
    e: ScopeEntryModel,
    id: Option<usize>,
    from: int,
)
    requires
        0 <= from <= entries.len(),
    ensures
        spec_position(entries, id, from) is Some ==> spec_position(entries.push(e), id, from)
            == spec_position(entries, id, from),
        spec_position(entries, id, from) is None ==> spec_position(entries.push(e), id, from) == if e.id
            == id {
            Some(entries.len() as int)
        } else {
            None::<int>
        },
    decreases entries.len() - from,
{
    let pushed = entries.push(e);
    if from < entries.len() {
        assert(pushed[from] == entries[from]);
        if entries[from].id != id {
            lemma_position_push(entries, e, id, from + 1);
        }
    } else {
        assert(pushed[from] == e);
        assert(spec_position(pushed, id, from + 1) is None);
    }
}

/// A position that is found holds the scope, and nothing before it does; where
/// none is found, no entry holds the scope.
pub proof fn lemma_position(entries: Seq<ScopeEntryModel>, id: Option<usize>, from: int)
    requires
        0 <= from,
    ensures
        match spec_position(entries, id, from) {
            Some(i) => from <= i < entries.len() && entries[i].id == id && forall|j: int|
                from <= j < i ==> entries[j].id != id,
            None => forall|j: int| from <= j < entries.len() ==> entries[j].id != id,
        },
    decreases entries.len() - from,
{
    if from < entries.len() && entries[from].id != id {
        lemma_position(entries, id, from + 1);
    }
}

/// Entering a scope keeps the table well formed: no scope and no name
/// occurs twice.
pub proof fn lemma_intern_well_formed(
    t: NameTableModel,
    id: Option<usize>,
    key: Option<WorldKeyModel>,
    base: Seq<char>,
)
    requires
        spec_table_well_formed(t),
    ensures
        spec_table_well_formed(spec_intern(t, id, key, base)),
{
    if spec_position(t.entries, id, 0) is None {
        let (name, counter) = spec_fresh_name(spec_names(t.entries), base, t.counter);
        let entry = ScopeEntryModel { id, key, name };
        let after = spec_intern(t, id, key, base);
        lemma_fresh_name(spec_names(t.entries), base, t.counter);
        lemma_position(t.entries, id, 0);
        assert forall|i: int, j: int| 0 <= i < j < after.entries.len() implies after.entries[i].name
            != after.entries[j].name by {
            if j == t.entries.len() {
                assert(spec_names(t.entries)[i] == t.entries[i].name);
            }
        }
        let n = t.entries.len();
        assert(2 * after.counter <= (n + 1) * (n + 2)) by (nonlinear_arith)
            requires
                2 * t.counter <= n * (n + 1),
                after.counter <= t.counter + n + 1,
        ;
    }
}

/// The table of resolved scope names.
pub struct NameTable {
    entries: Vec<ScopeEntry>,
    counter: u128,
}

impl View for NameTable {
    type V = NameTableModel;

    closed spec fn view(&self) -> NameTableModel {
        NameTableModel { entries: self.entries.deep_view(), counter: self.counter as nat }
    }
}

impl NameTable {
    /// The invariant of the table: see [`spec_table_well_formed`].
    pub open spec fn well_formed(&self) -> bool {
        spec_table_well_formed(self@)
    }

    /// An empty table.
    pub fn new() -> (r: Self)
        ensures
            r.well_formed(),
            r@ == (NameTableModel { entries: Seq::empty(), counter: 0 }),
    {
        let r = NameTable { entries: Vec::new(), counter: 0 };
        assert(r@.entries =~= Seq::empty());
        r
    }

    /// The number of scopes entered.
    pub fn len(&self) -> (r: usize)
        ensures
            r == self@.entries.len(),
    {
        self.entries.len()
    }

    /// The position of the entry for scope `id`.
    pub fn position(&self, id: Option<usize>) -> (r: Option<usize>)
        ensures
            match r {
                Some(i) => spec_position(self@.entries, id, 0) == Some(i as int) && i
                    < self@.entries.len(),
                None => spec_position(self@.entries, id, 0) is None,
            },
    {
        let mut i: usize = 0;
        while i < self.entries.len()
            invariant
                i <= self.entries.len(),
                spec_position(self@.entries, id, 0) == spec_position(self@.entries, id, i as int),
            decreases self.entries.len() - i,
        {
            if self.entries[i].id == id {
                return Some(i);
            }
            i += 1;
        }
        None
    }

    /// The resolved name of scope `id`, where the table holds the scope.
    pub fn resolve(&self, id: Option<usize>) -> (r: Option<String>)
        ensures
            r.deep_view() == spec_resolved(self@, id),
    {
        match self.position(id) {
            Some(i) => Some(self.entries[i].name.clone()),
            None => None,
        }
    }

    /// The key under which the world lists scope `id`, where the table holds
    /// the scope.
    pub fn key_of(&self, id: Option<usize>) -> (r: Option<&Option<WorldKey>>)
        ensures
            r.deep_view() == spec_key_of(self@, id),
    {
        match self.position(id) {
            Some(i) => Some(&self.entries[i].key),
            None => None,
        }
    }

    /// Whether `name` is the name of an entry.
    fn is_taken(&self, name: &String) -> (r: bool)
        ensures
            r == spec_contains(spec_names(self@.entries), name@),
    {
        let ghost names = spec_names(self@.entries);
        let mut i: usize = 0;
        while i < self.entries.len()
            invariant
                i <= self.entries.len(),
                names == spec_names(self@.entries),
                forall|j: int| 0 <= j < i ==> names[j] != name@,
            decreases self.entries.len() - i,
        {
            if self.entries[i].name == *name {
                assert(names[i as int] == name@);
                return true;
            }
            i += 1;
        }
        false
    }

    /// The name for a scope that wants `base`, and the counter afterwards.
    fn fresh_name(&self, base: &str) -> (r: (String, u128))
        requires
            self.well_formed(),
        ensures
            (r.0@, r.1 as nat) == spec_fresh_name(spec_names(self@.entries), base@, self@.counter),
    {
        let ghost taken = spec_names(self@.entries);
        let wanted = base.to_string();
        if !self.is_taken(&wanted) {
            return (wanted, self.counter);
        }
        let n = self.entries.len();
        assert(self.counter + n + 1 <= u128::MAX) by (nonlinear_arith)
            requires
                2 * self.counter <= n * (n + 1),
                n <= u64::MAX,
        ;
        let mut k: u128 = self.counter + 1;
        let mut fuel: usize = n;
        let mut candidate = base.to_string();
        candidate.append(decimal(k).as_str());
        while fuel > 0 && self.is_taken(&candidate)
            invariant
                taken == spec_names(self@.entries),
                fuel <= n,
                k + fuel == self.counter + 1 + n,
                self.counter + n + 1 <= u128::MAX,
                candidate@ == spec_candidate(base@, k as nat),
                spec_first_free(taken, base@, (self.counter + 1) as nat, n as nat) == spec_first_free(
                    taken,
                    base@,
                    k as nat,
                    fuel as nat,
                ),
            decreases fuel,
        {
            k = k + 1;
            fuel = fuel - 1;
            candidate = base.to_string();
            candidate.append(decimal(k).as_str());
        }
        (candidate, k)
    }

    /// Enters scope `id` with the wanted name `base` and gives its resolved
    /// name. A scope that the table holds already keeps the name it has.
    pub fn intern(&mut self, id: Option<usize>, key: Option<WorldKey>, base: &str) -> (name: String)
        requires
            old(self).well_formed(),
        ensures
            final(self).well_formed(),
            final(self)@ == spec_intern(old(self)@, id, key.deep_view(), base@),
            Some(name@) == spec_resolved(final(self)@, id),
    {
        match self.position(id) {
            Some(i) => self.entries[i].name.clone(),
            None => {
                let (name, counter) = self.fresh_name(base);
                let result = name.clone();
                let ghost before = self@;
                let ghost entry = ScopeEntryModel { id, key: key.deep_view(), name: name@ };
                proof {
                    lemma_intern_well_formed(before, id, key.deep_view(), base@);
                    lemma_position_push(before.entries, entry, id, 0);
                }
                self.counter = counter;
                self.entries.push(ScopeEntry { id, key, name });
                assert(self@.entries =~= before.entries.push(entry));
                result
            },
        }
    }
}

} // verus!
