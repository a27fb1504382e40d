//! The transform rows of a batch, each stored once.

use rustc_hash::FxHashMap;
use vstd::prelude::*;
use crate::fxmap::{fx_get, fx_insert};
use crate::geometry::{Affine, Transform};
use crate::vertex::{F32Bits, F32_ONE};

verus! {

/// The numbers in one row: three columns, each padded to four.
pub const ROW: usize = 12;

/// The multiplier of [`transform_key`].
pub const KEY_MIX: u64 = 0x9e37_79b9_7f4a_7c15;

/// One round of [`transform_key`].
pub open spec fn key_round(h: u64, word: F32Bits) -> u64 {
    h.wrapping_mul(KEY_MIX).wrapping_add(word as u64)
}

/// The number a matrix is found again by: its six words, mixed.
pub open spec fn spec_transform_key(m: Affine) -> u64 {
    let h = key_round(
        key_round(key_round(key_round(key_round(m.a as u64, m.c), m.b), m.d), m.tx),
        m.ty,
    );
    h ^ (h >> 32)
}

/// The number a matrix is found again by.
pub fn transform_key(m: Affine) -> (r: u64)
    ensures
        r == spec_transform_key(m),
{
    let mut h: u64 = m.a as u64;
    h = h.wrapping_mul(KEY_MIX).wrapping_add(m.c as u64);
    h = h.wrapping_mul(KEY_MIX).wrapping_add(m.b as u64);
    h = h.wrapping_mul(KEY_MIX).wrapping_add(m.d as u64);
    h = h.wrapping_mul(KEY_MIX).wrapping_add(m.tx as u64);
    h = h.wrapping_mul(KEY_MIX).wrapping_add(m.ty as u64);
    h ^ (h >> 32)
}

/// The row that a matrix is stored as.
pub open spec fn row_of(m: Affine) -> Seq<F32Bits> {
    seq![m.a, m.c, 0, 0, m.b, m.d, 0, 0, m.tx, m.ty, F32_ONE, 0]
}

/// The matrix in row `i`.
pub open spec fn matrix_at(rows: Seq<F32Bits>, i: int) -> Affine {
    Affine {
        a: rows[12 * i],
        c: rows[12 * i + 1],
        b: rows[12 * i + 4],
        d: rows[12 * i + 5],
        tx: rows[12 * i + 8],
        ty: rows[12 * i + 9],
    }
}

/// Every row is that of its matrix: 0, 0 behind the first two columns and 1, 0
/// behind the last.
pub open spec fn rows_padded(rows: Seq<F32Bits>) -> bool {
    forall|i: int|
        0 <= i < rows.len() / 12 ==> rows.subrange(12 * i, 12 * i + 12) == row_of(
            #[trigger] matrix_at(rows, i),
        )
}

/// The transform rows of a batch. Row 0 starts out as the identity.
#[derive(Debug)]
pub struct TransformTable {
    rows: Vec<F32Bits>,
    index: FxHashMap<u64, u32>,
}

/// What a [`TransformTable`] holds: the rows, end to end, and where each key is
/// found.
pub struct TransformModel {
    pub rows: Seq<F32Bits>,
    pub index: Map<u64, u32>,
}

impl TransformModel {
    /// The number of rows.
    pub open spec fn count(self) -> int {
        self.rows.len() as int / 12
    }

    /// The rows are whole and padded; every key leads to the first row with that
    /// key, and every row's key is there.
    pub open spec fn wf(self) -> bool {
        &&& self.rows.len() % 12 == 0
        &&& self.rows.len() >= 12
        &&& rows_padded(self.rows)
        &&& forall|k: u64| #[trigger]
            self.index.contains_key(k) ==> self.index[k] < self.count() && spec_transform_key(
                matrix_at(self.rows, self.index[k] as int),
            ) == k
        &&& forall|i: int|
            0 <= i < self.count() ==> {
                let k = spec_transform_key(#[trigger] matrix_at(self.rows, i));
                self.index.contains_key(k) && self.index[k] <= i
            }
    }

    /// The table that holds only the identity.
    pub open spec fn seeded() -> TransformModel {
        TransformModel {
            rows: row_of(Affine::spec_identity()),
            index: Map::<u64, u32>::empty().insert(
                spec_transform_key(Affine::spec_identity()),
                0,
            ),
        }
    }

    /// The table after registering a matrix: unchanged if its key is known,
    /// else one row longer.
    pub open spec fn registered(self, m: Affine) -> TransformModel {
        let key = spec_transform_key(m);
        if self.index.contains_key(key) {
            self
        } else {
            TransformModel {
                rows: self.rows + row_of(m),
                index: self.index.insert(key, self.count() as u32),
            }
        }
    }

    /// The row that a matrix has after registering it.
    pub open spec fn slot(self, m: Affine) -> u32 {
        let key = spec_transform_key(m);
        if self.index.contains_key(key) {
            self.index[key]
        } else {
            self.count() as u32
        }
    }
}

/// Every row of `after` is the padded product of `by` and the row of `before`.
pub open spec fn rows_multiplied<F: Fn(Transform, Affine) -> Affine>(
    before: TransformModel,
    after: TransformModel,
    by: Transform,
    f: F,
) -> bool {
    &&& after.rows.len() == before.rows.len()
    &&& forall|i: int|
        0 <= i < before.count() ==> {
            let new = #[trigger] matrix_at(after.rows, i);
            &&& call_ensures(f, (by, matrix_at(before.rows, i)), new)
            &&& after.rows.subrange(12 * i, 12 * i + 12) == row_of(new)
        }
}

impl View for TransformTable {
    type V = TransformModel;

    closed spec fn view(&self) -> TransformModel {
        TransformModel { rows: self.rows@, index: self.index@ }
    }
}

impl TransformTable {
    /// A table that holds only the identity.
    pub fn new() -> (r: Self)
        ensures
            r@ == TransformModel::seeded(),
            r@.wf(),
    {
        let mut table = TransformTable { rows: Vec::new(), index: FxHashMap::default() };
        table.seed_identity();
        table
    }

    /// Forgets all rows and keeps only the identity.
    pub fn seed_identity(&mut self)
        ensures
            final(self)@ == TransformModel::seeded(),
            final(self)@.wf(),
    {
        self.rows.clear();
        self.index.clear();
        push_row(&mut self.rows, Affine::identity());
        fx_insert(&mut self.index, transform_key(Affine::identity()), 0);
        assert(self@.rows =~= TransformModel::seeded().rows);
        assert(matrix_at(self@.rows, 0) == Affine::spec_identity());
        assert(self@.rows.subrange(0, 12) =~= row_of(Affine::spec_identity()));
    }

    /// Registers a matrix and gives its row: the one with the same key if there
    /// is one, else a new one at the end.
    pub fn register(&mut self, m: Affine) -> (r: u32)
        requires
            old(self)@.wf(),
            old(self)@.count() < u32::MAX,
        ensures
            final(self)@ == old(self)@.registered(m),
            r == old(self)@.slot(m),
            final(self)@.wf(),
            r < final(self)@.count(),
    {
        let key: u64 = transform_key(m);
        match fx_get(&self.index, key) {
            Some(slot) => slot,
            None => {
                let next: u32 = (self.rows.len() / ROW) as u32;
                push_row(&mut self.rows, m);
                fx_insert(&mut self.index, key, next);
                proof {
                    lemma_registered_wf(old(self)@, m);
                }
                assert(self@.rows =~= old(self)@.registered(m).rows);
                next
            },
        }
    }

    /// The number of rows.
    pub fn len(&self) -> (r: usize)
        ensures
            r == self@.count(),
    {
        self.rows.len() / ROW
    }

    /// The rows, end to end.
    pub fn rows(&self) -> (r: &Vec<F32Bits>)
        ensures
            r@ == self@.rows,
    {
        &self.rows
    }

    /// The matrix in row `i`; the identity if there is no such row.
    pub fn matrix(&self, i: u32) -> (r: Affine)
        ensures
            r == (if 12 * i + 12 <= self@.rows.len() {
                matrix_at(self@.rows, i as int)
            } else {
                Affine::spec_identity()
            }),
    {
        if (i as usize) < self.rows.len() / ROW {
            let base: usize = i as usize * ROW;
            Affine {
                a: self.rows[base],
                c: self.rows[base + 1],
                b: self.rows[base + 4],
                d: self.rows[base + 5],
                tx: self.rows[base + 8],
                ty: self.rows[base + 9],
            }
        } else {
            Affine::identity()
        }
    }

    /// Replaces every matrix by its product with the transform `by`, which `f`
    /// computes, and finds the rows anew. Where two rows get the same key, the
    /// first is found.
    pub fn multiply_rows<F: Fn(Transform, Affine) -> Affine>(&mut self, by: Transform, f: &F)
        requires
            old(self)@.wf(),
            old(self)@.count() <= u32::MAX,
            forall|m: Affine| call_requires(*f, (by, m)),
        ensures
            final(self)@.wf(),
            rows_multiplied(old(self)@, final(self)@, by, *f),
    {
        let ghost before = self.rows@;
        let n: usize = self.rows.len() / ROW;
        let mut i: usize = 0;
        while i < n
            invariant
                i <= n,
                n == before.len() / 12,
                before.len() % 12 == 0,
                self.rows.len() == before.len(),
                forall|m: Affine| call_requires(*f, (by, m)),
                forall|j: int| 12 * i <= j < before.len() ==> self.rows@[j] == before[j],
                forall|j: int|
                    0 <= j < i ==> {
                        let new = #[trigger] matrix_at(self.rows@, j);
                        &&& call_ensures(*f, (by, matrix_at(before, j)), new)
                        &&& self.rows@.subrange(12 * j, 12 * j + 12) == row_of(new)
                    },
            decreases n - i,
        {
            let base: usize = i * ROW;
            let old_matrix = Affine {
                a: self.rows[base],
                c: self.rows[base + 1],
                b: self.rows[base + 4],
                d: self.rows[base + 5],
                tx: self.rows[base + 8],
                ty: self.rows[base + 9],
            };
            assert(old_matrix == matrix_at(before, i as int));
            let new = f(by, old_matrix);
            let ghost prev = self.rows@;
            write_row(&mut self.rows, base, new);
            proof {
                let row = self.rows@.subrange(12 * i, 12 * i + 12);
                assert(row[0] == new.a && row[1] == new.c && row[4] == new.b && row[5] == new.d
                    && row[8] == new.tx && row[9] == new.ty);
                assert(matrix_at(self.rows@, i as int) == new);
            }
            assert forall|j: int| 0 <= j < i implies {
                let m = #[trigger] matrix_at(self.rows@, j);
                &&& call_ensures(*f, (by, matrix_at(before, j)), m)
                &&& self.rows@.subrange(12 * j, 12 * j + 12) == row_of(m)
            } by {
                assert(matrix_at(self.rows@, j) == matrix_at(prev, j));
                assert(self.rows@.subrange(12 * j, 12 * j + 12) =~= prev.subrange(
                    12 * j,
                    12 * j + 12,
                ));
            }
            i = i + 1;
        }
        self.rebuild_index();
    }

    /// Finds the rows anew; where two have the same key, the first is found.
    fn rebuild_index(&mut self)
        requires
            old(self)@.rows.len() % 12 == 0,
            old(self)@.rows.len() >= 12,
            rows_padded(old(self)@.rows),
            old(self)@.count() <= u32::MAX,
        ensures
            final(self)@.rows == old(self)@.rows,
            final(self)@.wf(),
    {
        self.index.clear();
        let n: usize = self.rows.len() / ROW;
        let mut i: usize = 0;
        while i < n
            invariant
                i <= n,
                n == self.rows@.len() / 12,
                self.rows@.len() % 12 == 0,
                self.rows@.len() / 12 <= u32::MAX,
                self.rows@ == old(self)@.rows,
                forall|k: u64| #[trigger]
                    self.index@.contains_key(k) ==> self.index@[k] < i && spec_transform_key(
                        matrix_at(self.rows@, self.index@[k] as int),
                    ) == k,
                forall|j: int|
                    0 <= j < i ==> {
                        let k = spec_transform_key(#[trigger] matrix_at(self.rows@, j));
                        self.index@.contains_key(k) && self.index@[k] <= j
                    },
            decreases n - i,
        {
            let m = self.matrix(i as u32);
            let key: u64 = transform_key(m);
            assert(m == matrix_at(self.rows@, i as int));
            if fx_get(&self.index, key).is_none() {
                fx_insert(&mut self.index, key, i as u32);
            }
            i = i + 1;
        }
    }
}

impl Clone for TransformTable {
    fn clone(&self) -> (r: Self)
        ensures
            r@ == self@,
    {
        let rows = self.rows.clone();
        assert(rows@ =~= self.rows@);
        TransformTable { rows, index: self.index.clone() }
    }
}

fn push_row(rows: &mut Vec<F32Bits>, m: Affine)
    ensures
        final(rows)@ == old(rows)@ + row_of(m),
{
    let ghost before = rows@;
    rows.push(m.a);
    rows.push(m.c);
    rows.push(0);
    rows.push(0);
    rows.push(m.b);
    rows.push(m.d);
    rows.push(0);
    rows.push(0);
    rows.push(m.tx);
    rows.push(m.ty);
    rows.push(F32_ONE);
    rows.push(0);
    assert(rows@ =~= before + row_of(m));
}

fn write_row(rows: &mut Vec<F32Bits>, base: usize, m: Affine)
    requires
        base + 12 <= old(rows).len(),
    ensures
        final(rows).len() == old(rows).len(),
        final(rows)@.subrange(base as int, base + 12) == row_of(m),
        forall|j: int|
            0 <= j < old(rows).len() && !(base <= j < base + 12) ==> final(rows)@[j] == old(
                rows,
            )@[j],
{
    rows.set(base, m.a);
    rows.set(base + 1, m.c);
    rows.set(base + 2, 0);
    rows.set(base + 3, 0);
    rows.set(base + 4, m.b);
    rows.set(base + 5, m.d);
    rows.set(base + 6, 0);
    rows.set(base + 7, 0);
    rows.set(base + 8, m.tx);
    rows.set(base + 9, m.ty);
    rows.set(base + 10, F32_ONE);
    rows.set(base + 11, 0);
    assert(rows@.subrange(base as int, base + 12) =~= row_of(m));
}

proof fn lemma_registered_wf(t: TransformModel, m: Affine)
    requires
        t.wf(),
        t.count() < u32::MAX,
    ensures
        t.registered(m).wf(),
        t.slot(m) < t.registered(m).count(),
{
    let key = spec_transform_key(m);
    if !t.index.contains_key(key) {
        let new = t.registered(m);
        let n = t.count();
        assert(new.count() == n + 1);
        assert(matrix_at(new.rows, n) == m);
        assert forall|i: int| 0 <= i < new.count() implies new.rows.subrange(12 * i, 12 * i + 12)
            == row_of(#[trigger] matrix_at(new.rows, i)) by {
            if i < n {
                assert(matrix_at(new.rows, i) == matrix_at(t.rows, i));
                assert(new.rows.subrange(12 * i, 12 * i + 12) =~= t.rows.subrange(
                    12 * i,
                    12 * i + 12,
                ));
            } else {
                assert(new.rows.subrange(12 * i, 12 * i + 12) =~= row_of(m));
            }
        }
        assert forall|i: int| 0 <= i < n implies #[trigger] matrix_at(new.rows, i) == matrix_at(
            t.rows,
            i,
        ) by {}
        assert forall|k: u64| #[trigger] new.index.contains_key(k) implies new.index[k]
            < new.count() && spec_transform_key(matrix_at(new.rows, new.index[k] as int)) == k by {
            if k != key {
                assert(t.index.contains_key(k));
            }
        }
        assert forall|i: int| 0 <= i < new.count() implies {
            let k = spec_transform_key(#[trigger] matrix_at(new.rows, i));
            new.index.contains_key(k) && new.index[k] <= i
        } by {
            if i < n {
                assert(matrix_at(new.rows, i) == matrix_at(t.rows, i));
            }
        }
    }
}

/// Law: the rows alone decide where each key is found.
pub proof fn lemma_index_from_rows(t: TransformModel, u: TransformModel)
    requires
        t.wf(),
        u.wf(),
        t.rows == u.rows,
    ensures
        t == u,
{
    assert forall|k: u64| t.index.contains_key(k) implies u.index.contains_key(k) && u.index[k]
        == t.index[k] by {
        let i = t.index[k] as int;
        assert(spec_transform_key(matrix_at(t.rows, i)) == k);
        let j = u.index[k] as int;
        assert(spec_transform_key(matrix_at(u.rows, j)) == k);
    }
    assert forall|k: u64| u.index.contains_key(k) implies t.index.contains_key(k) by {
        let i = u.index[k] as int;
        assert(spec_transform_key(matrix_at(u.rows, i)) == k);
    }
    assert(t.index =~= u.index);
}

/// Law: registering the same matrix again gives the same row and adds nothing.
pub proof fn lemma_register_is_stable(t: TransformModel, m: Affine)
    requires
        t.wf(),
        t.count() < u32::MAX,
    ensures
        t.registered(m).slot(m) == t.slot(m),
        t.registered(m).registered(m) == t.registered(m),
{
}

/// Law: registering a matrix keeps every row there was, row 0 among them, and
/// the row it gives has the key of the matrix.
pub proof fn lemma_register_keeps_rows(t: TransformModel, m: Affine)
    requires
        t.wf(),
        t.count() < u32::MAX,
    ensures
        forall|i: int|
            0 <= i < t.rows.len() ==> (#[trigger] t.registered(m).rows[i]) == t.rows[i],
        spec_transform_key(matrix_at(t.registered(m).rows, t.slot(m) as int))
            == spec_transform_key(m),
        !t.index.contains_key(spec_transform_key(m)) ==> matrix_at(
            t.registered(m).rows,
            t.slot(m) as int,
        ) == m,
{
    let n = t.count();
    if !t.index.contains_key(spec_transform_key(m)) {
        assert(t.slot(m) == n);
        assert(matrix_at(t.registered(m).rows, n) == m);
    }
}

/// Law: where no other matrix of the table has the key of `m`, registering `m`
/// gives the row of `m`, padded. It adds at most one row, and none the second
/// time.
pub proof fn lemma_register_gives_row(t: TransformModel, m: Affine)
    requires
        t.wf(),
        t.count() < u32::MAX,
        forall|i: int|
            0 <= i < t.count() && spec_transform_key(#[trigger] matrix_at(t.rows, i))
                == spec_transform_key(m) ==> matrix_at(t.rows, i) == m,
    ensures
        t.registered(m).wf(),
        t.registered(m).rows.subrange(12 * t.slot(m), 12 * t.slot(m) + 12) == row_of(m),
        matrix_at(t.registered(m).rows, t.slot(m) as int) == m,
        t.count() <= t.registered(m).count() <= t.count() + 1,
        t.registered(m).rows.take(t.rows.len() as int) == t.rows,
        t.registered(m).registered(m) == t.registered(m),
        t.registered(m).slot(m) == t.slot(m),
{
    lemma_registered_wf(t, m);
    lemma_register_keeps_rows(t, m);
    let key = spec_transform_key(m);
    let new = t.registered(m);
    if t.index.contains_key(key) {
        assert(matrix_at(t.rows, t.index[key] as int) == m);
    }
    assert(matrix_at(new.rows, t.slot(m) as int) == m);
    assert(new.rows.take(t.rows.len() as int) =~= t.rows);
}

/// Law: in a table that holds only the identity, the identity is row 0, and
/// any matrix with another key becomes row 1.
pub proof fn lemma_register_in_seeded(m: Affine)
    ensures
        TransformModel::seeded().wf(),
        TransformModel::seeded().slot(Affine::spec_identity()) == 0,
        TransformModel::seeded().registered(Affine::spec_identity()) == TransformModel::seeded(),
        spec_transform_key(m) != spec_transform_key(Affine::spec_identity()) ==> {
            &&& TransformModel::seeded().slot(m) == 1
            &&& TransformModel::seeded().registered(m).rows == row_of(Affine::spec_identity())
                + row_of(m)
        },
{
    let t = TransformModel::seeded();
    let id = Affine::spec_identity();
    assert(matrix_at(t.rows, 0) == id);
    assert(t.rows.subrange(0, 12) =~= row_of(id));
}

/// Law: in a table whose row 0 is the identity, the identity is row 0, also
/// after any registration.
pub proof fn lemma_identity_is_row_zero(t: TransformModel, m: Affine)
    requires
        t.wf(),
        t.count() < u32::MAX,
        matrix_at(t.rows, 0) == Affine::spec_identity(),
    ensures
        t.slot(Affine::spec_identity()) == 0,
        matrix_at(t.registered(m).rows, 0) == Affine::spec_identity(),
        t.registered(m).slot(Affine::spec_identity()) == 0,
{
    lemma_registered_wf(t, m);
    lemma_register_keeps_rows(t, m);
    assert(matrix_at(t.registered(m).rows, 0) == matrix_at(t.rows, 0));
}

} // verus!
