//! Fixed-size containers that store few distinct values compactly.

use vstd::prelude::*;

verus! {

/// The most distinct values that the indexed form holds.
pub const PALETTE_LIMIT: usize = 16;

/// A small copyable value that a container can hold and compare.
pub trait Cell: Copy {
    /// Whether the two values are the same.
    fn same(&self, other: &Self) -> (r: bool)
        ensures
            r == (*self == *other),
    ;
}

/// Values picked out of a short palette, one index per cell.
#[derive(Clone, Debug)]
pub struct Indirect<T> {
    /// The distinct values in use, at least two.
    pub palette: Vec<T>,
    /// For each cell the place of its value in the palette.
    pub indices: Vec<u8>,
}

/// `LEN` values, stored in the form that suits how many of them differ.
#[derive(Clone, Debug)]
pub enum PalettedContainer<T, const LEN: usize> {
    /// Every cell holds this value.
    Single(T),
    /// Cells are indices into a palette.
    Indirect(Indirect<T>),
    /// Cells are stored one by one.
    Direct(Vec<T>),
}

/// How a container stores its values.
#[verifier::ext_equal]
pub enum Form<T> {
    /// One value for all cells.
    Single(T),
    /// A palette, and for each cell the place of its value in it.
    Indirect { palette: Seq<T>, indices: Seq<u8> },
    /// The value of each cell.
    Direct(Seq<T>),
}

impl<T> Form<T> {
    /// Two to sixteen distinct values in a palette and every index in it, or one
    /// value for each cell.
    pub open spec fn wf(self, len: nat) -> bool {
        match self {
            Form::Single(_) => true,
            Form::Indirect { palette, indices } => {
                &&& 2 <= palette.len() <= PALETTE_LIMIT
                &&& palette.no_duplicates()
                &&& indices.len() == len
                &&& forall|i: int|
                    0 <= i < len ==> (#[trigger] indices[i] as int) < palette.len()
            },
            Form::Direct(values) => values.len() == len,
        }
    }

    /// The value in cell `i`.
    pub open spec fn at(self, i: int) -> T {
        match self {
            Form::Single(v) => v,
            Form::Indirect { palette, indices } => palette[indices[i] as int],
            Form::Direct(values) => values[i],
        }
    }

    /// The values of all cells.
    pub open spec fn values(self, len: nat) -> Seq<T> {
        Seq::new(len, |i: int| self.at(i))
    }

    /// The form after a cell is set. A new value goes to the end of the palette;
    /// where that is full, values are stored one by one.
    pub open spec fn with(self, len: nat, i: int, val: T) -> Form<T> {
        if self.at(i) == val {
            self
        } else {
            match self {
                Form::Single(v) => Form::Indirect {
                    palette: seq![v, val],
                    indices: Seq::new(
                        len,
                        |k: int|
                            if k == i {
                                1u8
                            } else {
                                0u8
                            },
                    ),
                },
                Form::Indirect { palette, indices } => if palette.contains(val) {
                    Form::Indirect {
                        palette,
                        indices: indices.update(i, palette.index_of(val) as u8),
                    }
                } else if palette.len() < PALETTE_LIMIT {
                    Form::Indirect {
                        palette: palette.push(val),
                        indices: indices.update(i, palette.len() as u8),
                    }
                } else {
                    Form::Direct(self.values(len).update(i, val))
                },
                Form::Direct(values) => Form::Direct(values.update(i, val)),
            }
        }
    }

    /// The smallest form that holds `values`, with a palette in the order in
    /// which they first occur.
    pub open spec fn smallest(values: Seq<T>) -> Form<T> {
        let palette = first_occurrences(values);
        if palette.len() == 1 {
            Form::Single(palette[0])
        } else if palette.len() <= PALETTE_LIMIT {
            Form::Indirect {
                palette,
                indices: Seq::new(values.len(), |i: int| palette.index_of(values[i]) as u8),
            }
        } else {
            Form::Direct(values)
        }
    }
}

/// The distinct values in the order in which they first occur.
pub open spec fn first_occurrences<T>(values: Seq<T>) -> Seq<T>
    decreases values.len(),
{
    if values.len() == 0 {
        Seq::empty()
    } else {
        let before = first_occurrences(values.drop_last());
        if before.contains(values.last()) {
            before
        } else {
            before.push(values.last())
        }
    }
}

/// A value of a palette has one place in it.
proof fn lemma_place<T>(palette: Seq<T>, k: int)
    requires
        palette.no_duplicates(),
        0 <= k < palette.len(),
    ensures
        palette.contains(palette[k]),
        palette.index_of(palette[k]) == k,
{
    assert(palette.contains(palette[k]));
    let j = palette.index_of(palette[k]);
    assert(0 <= j < palette.len() && palette[j] == palette[k]);
}

/// Setting a cell sets that value alone.
pub proof fn form_is_set<T>(form: Form<T>, len: nat, i: int, val: T)
    requires
        form.wf(len),
        0 <= i < len,
    ensures
        form.with(len, i, val).wf(len),
        form.with(len, i, val).values(len) == form.values(len).update(i, val),
{
    let after = form.with(len, i, val);
    if let Form::Indirect { palette, indices } = form {
        if palette.contains(val) {
            let k = palette.index_of(val);
            assert(0 <= k < palette.len() && palette[k] == val);
        } else {
            assert(palette.push(val).no_duplicates());
        }
    }
    assert(after.values(len) =~= form.values(len).update(i, val));
}

/// First occurrences are distinct and the same values.
proof fn lemma_first_occurrences<T>(values: Seq<T>)
    ensures
        first_occurrences(values).no_duplicates(),
        first_occurrences(values).to_set() == values.to_set(),
        values.len() > 0 ==> first_occurrences(values).len() > 0,
    decreases values.len(),
{
    if values.len() > 0 {
        let before = first_occurrences(values.drop_last());
        lemma_first_occurrences(values.drop_last());
        assert(values =~= values.drop_last().push(values.last()));
        lemma_push_set(values.drop_last(), values.last());
        if before.contains(values.last()) {
            assert(before.to_set().insert(values.last()) =~= before.to_set());
        } else {
            lemma_push_set(before, values.last());
        }
    } else {
        assert(first_occurrences(values) =~= values);
    }
}

/// The first values have no more distinct ones than all.
proof fn lemma_occurrences_grow<T>(values: Seq<T>, i: int)
    requires
        0 <= i <= values.len(),
    ensures
        first_occurrences(values.take(i)).len() <= first_occurrences(values).len(),
    decreases values.len(),
{
    if i == values.len() {
        assert(values.take(i) =~= values);
    } else {
        lemma_occurrences_grow(values.drop_last(), i);
        assert(values.drop_last().take(i) =~= values.take(i));
    }
}

/// The smallest form holds the values.
pub proof fn smallest_form_holds<T>(values: Seq<T>)
    requires
        values.len() > 0,
    ensures
        Form::smallest(values).wf(values.len()),
        Form::smallest(values).values(values.len()) == values,
        Form::smallest(values) is Single <==> values.to_set().len() == 1,
        Form::smallest(values) is Indirect <==> 2 <= values.to_set().len() <= PALETTE_LIMIT,
        values.to_set().len() > 0,
{
    let palette = first_occurrences(values);
    let form = Form::smallest(values);
    lemma_first_occurrences(values);
    palette.unique_seq_to_set();
    assert forall|i: int| 0 <= i < values.len() implies #[trigger] palette.contains(values[i]) by {
        assert(values.to_set().contains(values[i]));
        assert(palette.to_set().contains(values[i]));
    }
    assert forall|i: int| 0 <= i < values.len() implies {
        let k = #[trigger] palette.index_of(values[i]);
        0 <= k < palette.len() && palette[k] == values[i]
    } by {
        assert(palette.contains(values[i]));
    }
    assert(form.values(values.len()) =~= values);
}

impl<T> Indirect<T> {
    /// The palette has two to sixteen distinct values and every index is in it.
    pub open spec fn wf(&self, len: nat) -> bool {
        &&& 2 <= self.palette@.len() <= PALETTE_LIMIT
        &&& self.palette@.no_duplicates()
        &&& self.indices@.len() == len
        &&& forall|i: int|
            0 <= i < len ==> (#[trigger] self.indices@[i] as int) < self.palette@.len()
    }

    /// The value in cell `i`.
    pub open spec fn at(&self, i: int) -> T {
        self.palette@[self.indices@[i] as int]
    }
}

impl<T: Cell> Indirect<T> {
    /// The value in cell `idx`.
    pub fn get(&self, idx: usize) -> (r: T)
        requires
            self.wf(self.indices@.len()),
            idx < self.indices@.len(),
        ensures
            r == self.at(idx as int),
    {
        self.palette[self.indices[idx] as usize]
    }

    /// The place of `val` in the palette, if it is there.
    fn find(&self, val: &T) -> (r: Option<usize>)
        ensures
            match r {
                Some(k) => k < self.palette@.len() && self.palette@[k as int] == *val,
                None => !self.palette@.contains(*val),
            },
    {
        find_in(&self.palette, val)
    }
}

/// The place of `val` in `palette`, if it is there.
fn find_in<T: Cell>(palette: &Vec<T>, val: &T) -> (r: Option<usize>)
    ensures
        match r {
            Some(k) => k < palette@.len() && palette@[k as int] == *val,
            None => !palette@.contains(*val),
        },
{
    let mut k: usize = 0;
    while k < palette.len()
        invariant
            k <= palette@.len(),
            forall|j: int| 0 <= j < k ==> palette@[j] != *val,
        decreases palette@.len() - k,
    {
        if palette[k].same(val) {
            return Some(k);
        }
        k = k + 1;
    }
    None
}

/// The same cells in a vector of their own.
fn copy_cells<T: Cell>(cells: &Vec<T>) -> (r: Vec<T>)
    ensures
        r@ == cells@,
{
    let mut out: Vec<T> = Vec::with_capacity(cells.len());
    let mut i: usize = 0;
    while i < cells.len()
        invariant
            i <= cells@.len(),
            out@ == cells@.take(i as int),
        decreases cells@.len() - i,
    {
        out.push(cells[i]);
        i = i + 1;
    }
    out
}

impl<T, const LEN: usize> View for PalettedContainer<T, LEN> {
    type V = Seq<T>;

    open spec fn view(&self) -> Seq<T> {
        match self {
            PalettedContainer::Single(v) => Seq::new(LEN as nat, |i: int| *v),
            PalettedContainer::Indirect(ind) => Seq::new(LEN as nat, |i: int| ind.at(i)),
            PalettedContainer::Direct(vals) => vals@,
        }
    }
}

impl<T, const LEN: usize> PalettedContainer<T, LEN> {
    /// The stored form is consistent and has `LEN` cells, at least one.
    pub open spec fn wf(&self) -> bool {
        &&& LEN > 0
        &&& match self {
            PalettedContainer::Single(_) => true,
            PalettedContainer::Indirect(ind) => ind.wf(LEN as nat),
            PalettedContainer::Direct(vals) => vals@.len() == LEN,
        }
    }

    /// How the values are stored.
    pub open spec fn form(&self) -> Form<T> {
        match self {
            PalettedContainer::Single(v) => Form::Single(*v),
            PalettedContainer::Indirect(ind) => Form::Indirect {
                palette: ind.palette@,
                indices: ind.indices@,
            },
            PalettedContainer::Direct(vals) => Form::Direct(vals@),
        }
    }

    /// Whether the form matches the number of distinct values held.
    pub open spec fn compact(&self) -> bool {
        let distinct = self@.to_set().len();
        match self {
            PalettedContainer::Single(_) => distinct == 1,
            PalettedContainer::Indirect(_) => 2 <= distinct <= PALETTE_LIMIT,
            PalettedContainer::Direct(_) => distinct > PALETTE_LIMIT,
        }
    }
}

impl<T: Cell, const LEN: usize> PalettedContainer<T, LEN> {
    /// The value in cell `idx`.
    pub fn get(&self, idx: usize) -> (r: T)
        requires
            self.wf(),
            idx < LEN,
        ensures
            r == self@[idx as int],
    {
        match self {
            PalettedContainer::Single(v) => *v,
            PalettedContainer::Indirect(ind) => ind.get(idx),
            PalettedContainer::Direct(vals) => vals[idx],
        }
    }

    /// Puts `val` into every cell.
    pub fn fill(&mut self, val: T)
        requires
            LEN > 0,
        ensures
            final(self).wf(),
            *final(self) == PalettedContainer::<T, LEN>::Single(val),
    {
        *self = PalettedContainer::Single(val);
    }

    /// A copy in the same form.
    pub fn duplicate(&self) -> (r: Self)
        requires
            self.wf(),
        ensures
            r.wf(),
            r@ == self@,
            r.form() == self.form(),
    {
        match self {
            PalettedContainer::Single(v) => PalettedContainer::Single(*v),
            PalettedContainer::Indirect(ind) => {
                let palette = copy_cells(&ind.palette);
                let indices = ind.indices.clone();
                let twin = Indirect { palette, indices };
                proof {
                    assert(Seq::new(LEN as nat, |i: int| twin.at(i)) =~= self@);
                }
                PalettedContainer::Indirect(twin)
            },
            PalettedContainer::Direct(vals) => PalettedContainer::Direct(copy_cells(vals)),
        }
    }

    /// The values of all cells in order.
    fn to_values(&self) -> (r: Vec<T>)
        requires
            self.wf(),
        ensures
            r@ == self@,
    {
        let mut vals: Vec<T> = Vec::new();
        let mut i: usize = 0;
        while i < LEN
            invariant
                self.wf(),
                i <= LEN,
                vals@ == self@.take(i as int),
            decreases LEN - i,
        {
            vals.push(self.get(i));
            i = i + 1;
        }
        vals
    }

    /// Puts `val` into cell `idx` and returns what was there.
    pub fn set(&mut self, idx: usize, val: T) -> (r: T)
        requires
            old(self).wf(),
            idx < LEN,
        ensures
            final(self).wf(),
            final(self)@ == old(self)@.update(idx as int, val),
            r == old(self)@[idx as int],
            final(self).form() == old(self).form().with(LEN as nat, idx as int, val),
    {
        let prev = self.get(idx);
        let ghost before = self@;
        let ghost form = self.form();
        proof {
            assert(form.at(idx as int) == prev);
            assert(form.wf(LEN as nat));
            assert(form.values(LEN as nat) =~= before);
            form_is_set(form, LEN as nat, idx as int, val);
        }
        let mut wide: bool = false;
        match self {
            PalettedContainer::Single(v) => {
                if !v.same(&val) {
                    let mut palette: Vec<T> = Vec::new();
                    palette.push(*v);
                    palette.push(val);
                    let mut indices: Vec<u8> = vec![0u8; LEN];
                    indices.set(idx, 1);
                    *self = PalettedContainer::Indirect(Indirect { palette, indices });
                }
            },
            PalettedContainer::Indirect(ind) => {
                match ind.find(&val) {
                    Some(k) => {
                        proof {
                            lemma_place(ind.palette@, k as int);
                            lemma_place(ind.palette@, ind.indices@[idx as int] as int);
                        }
                        ind.indices.set(idx, k as u8);
                    },
                    None => {
                        if ind.palette.len() < PALETTE_LIMIT {
                            let k: usize = ind.palette.len();
                            ind.palette.push(val);
                            ind.indices.set(idx, k as u8);
                        } else {
                            wide = true;
                        }
                    },
                }
            },
            PalettedContainer::Direct(vals) => {
                vals.set(idx, val);
            },
        }
        if wide {
            let mut vals = self.to_values();
            vals.set(idx, val);
            *self = PalettedContainer::Direct(vals);
        }
        proof {
            assert(self@ =~= before.update(idx as int, val));
            assert(self.form() =~= form.with(LEN as nat, idx as int, val));
        }
        prev
    }

    /// Rebuilds the container in the smallest form that holds its values.
    pub fn shrink_to_fit(&mut self)
        requires
            old(self).wf(),
        ensures
            final(self).wf(),
            final(self)@ == old(self)@,
            final(self).form() == Form::smallest(old(self)@),
            final(self).compact(),
    {
        let ghost before = self@;
        let mut palette: Vec<T> = Vec::new();
        let mut indices: Vec<u8> = Vec::new();
        let mut i: usize = 0;
        proof {
            smallest_form_holds(before);
        }
        while i < LEN
            invariant
                self.wf(),
                self@ == before,
                before == old(self)@,
                before.len() == LEN,
                i <= LEN,
                palette@.len() <= PALETTE_LIMIT,
                palette@ == first_occurrences(before.take(i as int)),
                indices@.len() == i,
                forall|j: int|
                    0 <= j < i ==> (#[trigger] indices@[j] as int) < palette@.len()
                        && palette@[indices@[j] as int] == before[j],
                Form::smallest(before) is Single <==> before.to_set().len() == 1,
                Form::smallest(before) is Indirect <==> 2 <= before.to_set().len()
                    <= PALETTE_LIMIT,
                before.to_set().len() > 0,
            decreases LEN - i,
        {
            let val = self.get(i);
            proof {
                assert(before.take(i as int + 1).drop_last() =~= before.take(i as int));
            }
            match find_in(&palette, &val) {
                Some(k) => {
                    indices.push(k as u8);
                },
                None => {
                    if palette.len() == PALETTE_LIMIT {
                        let vals = self.to_values();
                        proof {
                            lemma_occurrences_grow(before, i as int + 1);
                        }
                        *self = PalettedContainer::Direct(vals);
                        return ;
                    }
                    let k: usize = palette.len();
                    palette.push(val);
                    indices.push(k as u8);
                },
            }
            i = i + 1;
        }
        proof {
            assert(before.take(LEN as int) =~= before);
            lemma_first_occurrences(before);
            assert forall|j: int| 0 <= j < LEN implies palette@.index_of(before[j])
                == #[trigger] indices@[j] by {
                lemma_place(palette@, indices@[j] as int);
            }
        }
        if palette.len() == 1 {
            proof {
                assert forall|j: int| 0 <= j < LEN implies before[j] == palette@[0] by {
                    assert(palette@[indices@[j] as int] == before[j]);
                }
                assert(before =~= Seq::new(LEN as nat, |j: int| palette@[0]));
            }
            *self = PalettedContainer::Single(palette[0]);
        } else {
            let ind = Indirect { palette, indices };
            proof {
                assert(before =~= Seq::new(LEN as nat, |j: int| ind.at(j)));
                assert(ind.indices@ =~= Seq::new(
                    LEN as nat,
                    |j: int| ind.palette@.index_of(before[j]) as u8,
                ));
            }
            *self = PalettedContainer::Indirect(ind);
        }
    }
}

/// The values of a sequence grown by one are those it had and the new one.
pub proof fn lemma_push_set<T>(s: Seq<T>, v: T)
    ensures
        s.push(v).to_set() == s.to_set().insert(v),
{
    let pushed = s.push(v);
    assert forall|x: T| pushed.to_set().contains(x) <==> s.to_set().insert(v).contains(x) by {
        if pushed.contains(x) {
            let k = choose|k: int| 0 <= k < pushed.len() && pushed[k] == x;
            if k < s.len() {
                assert(s[k] == x);
                assert(s.contains(x));
            }
        }
        if s.contains(x) {
            let k = choose|k: int| 0 <= k < s.len() && s[k] == x;
            assert(pushed[k] == x);
        }
        assert(pushed[s.len() as int] == v);
    }
    assert(pushed.to_set() =~= s.to_set().insert(v));
}

} // verus!
