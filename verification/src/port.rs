//! Buffer cells and the ports that refer to them.
//!
//! The cells live in a [`Store`]. A [`Port`] has a fixed shape and refers to
//! one cell; several ports may refer to the same cell, and then a value
//! written through one of them is the value read through each of the others.

use crate::error::{Error, ErrorView};
use crate::shape::{extents, extents_of, same_extents};
use crate::value::{Value, ValueView};
use arrayfire::Dim4;
use vstd::prelude::*;

verus! {

/// Whether `after` has every cell of `before`, each with the shape it had.
pub open spec fn keeps_shapes(before: Seq<ValueView>, after: Seq<ValueView>) -> bool {
    &&& before.len() <= after.len()
    &&& forall|c: int| 0 <= c < before.len() ==> (#[trigger] after[c]).shape == before[c].shape
}

/// The buffer cells of a graph. Each cell holds exactly one value at a time.
/// Cells are added when ports are made and are never taken away.
#[derive(Clone, Debug)]
pub struct Store {
    cells: Vec<Value>,
}

impl View for Store {
    type V = Seq<ValueView>;

    closed spec fn view(&self) -> Seq<ValueView> {
        self.cells@.map_values(|v: Value| v@)
    }
}

impl Store {
    /// A store without cells.
    pub fn new() -> (s: Store)
        ensures
            s@ == Seq::<ValueView>::empty(),
    {
        let s = Store { cells: Vec::new() };
        assert(s@ =~= Seq::<ValueView>::empty());
        s
    }

    /// The number of cells.
    pub fn len(&self) -> (n: usize)
        ensures
            n == self@.len(),
    {
        self.cells.len()
    }
}

/// The mathematical content of a [`Port`]: its shape, and the number of the
/// cell it refers to.
pub struct PortView {
    pub shape: Seq<u64>,
    pub cell: nat,
}

impl PortView {
    /// The port's cell is one of `cells` and has the port's shape.
    pub open spec fn valid_in(self, cells: Seq<ValueView>) -> bool {
        &&& self.cell < cells.len()
        &&& cells[self.cell as int].shape == self.shape
    }

    /// This port after it has been made to refer to the cell of `other`.
    pub open spec fn aliased(self, other: PortView) -> PortView {
        PortView { shape: self.shape, cell: other.cell }
    }

    /// What entangling this port with `other` gives: the port aliased to
    /// the cell of `other`, or, where the shapes differ, the mismatch.
    pub open spec fn entangled(self, other: PortView) -> Result<PortView, ErrorView> {
        if self.shape == other.shape {
            Ok(self.aliased(other))
        } else {
            Err(ErrorView::ShapeMismatch { expected: self.shape, actual: other.shape })
        }
    }

    /// What a read through this port gives.
    pub open spec fn read(self, cells: Seq<ValueView>) -> ValueView {
        cells[self.cell as int]
    }

    /// The cells after `value` has been written through this port.
    pub open spec fn written(self, cells: Seq<ValueView>, value: ValueView) -> Seq<ValueView> {
        cells.update(self.cell as int, value)
    }

    /// What writing `value` through this port gives: the new cells, or,
    /// where the value has another shape than the port, the mismatch.
    pub open spec fn stored(self, cells: Seq<ValueView>, value: ValueView) -> Result<
        Seq<ValueView>,
        ErrorView,
    > {
        if value.shape == self.shape {
            Ok(self.written(cells, value))
        } else {
            Err(ErrorView::ShapeMismatch { expected: self.shape, actual: value.shape })
        }
    }
}

/// A fixed-shape endpoint that refers to one buffer cell.
#[derive(Clone, Copy, Debug)]
pub struct Port {
    dims: Dim4,
    cell: usize,
}

impl View for Port {
    type V = PortView;

    closed spec fn view(&self) -> PortView {
        PortView { shape: extents(self.dims), cell: self.cell as nat }
    }
}

impl Port {
    /// Makes a port of shape `dims` with a fresh cell of its own, which
    /// holds the zero-filled value of that shape.
    pub fn new(store: &mut Store, dims: Dim4) -> (p: Port)
        ensures
            p@ == (PortView { shape: extents(dims), cell: old(store)@.len() }),
            final(store)@ == old(store)@.push(ValueView::zeros(extents(dims))),
            p@.valid_in(final(store)@),
            p@.read(final(store)@) == ValueView::zeros(extents(dims)),
            keeps_shapes(old(store)@, final(store)@),
    {
        let cell: usize = store.cells.len();
        store.cells.push(Value::zeros(dims));
        assert(store@ =~= old(store)@.push(ValueView::zeros(extents(dims))));
        Port { dims, cell }
    }

    /// Makes this port refer to the cell of `port`, which must have the same
    /// shape. The cell this port referred to before is left to the ports
    /// that still refer to it. With different shapes nothing changes.
    pub fn entangle(&mut self, port: &Port) -> (r: Result<(), Error>)
        ensures
            match old(self)@.entangled(port@) {
                Ok(p) => r is Ok && final(self)@ == p,
                Err(e) => r is Err && r->Err_0@ == e && *final(self) == *old(self),
            },
    {
        if !same_extents(&self.dims, &port.dims) {
            return Err(Error::shape_mismatch(self.dims, port.dims));
        }
        self.cell = port.cell;
        Ok(())
    }

    /// Replaces the value of the port's cell by `value`, which must have the
    /// port's shape. With another shape nothing changes.
    pub fn write(&self, store: &mut Store, value: Value) -> (r: Result<(), Error>)
        requires
            self@.valid_in(old(store)@),
        ensures
            match self@.stored(old(store)@, value@) {
                Ok(cells) => r is Ok && final(store)@ == cells,
                Err(e) => r is Err && r->Err_0@ == e && final(store)@ == old(store)@,
            },
            keeps_shapes(old(store)@, final(store)@),
    {
        let given: Dim4 = value.dims();
        if !same_extents(&self.dims, &given) {
            return Err(Error::shape_mismatch(self.dims, given));
        }
        self.replace(store, value);
        Ok(())
    }

    /// Replaces the value of the port's cell by `value`, which has the
    /// port's shape.
    pub(crate) fn replace(&self, store: &mut Store, value: Value)
        requires
            self@.valid_in(old(store)@),
            value@.shape == self@.shape,
        ensures
            final(store)@ == self@.written(old(store)@, value@),
            keeps_shapes(old(store)@, final(store)@),
    {
        store.cells.set(self.cell, value);
        assert(store@ =~= self@.written(old(store)@, value@));
    }

    /// The current value of the port's cell.
    pub fn read(&self, store: &Store) -> (v: Value)
        requires
            self@.valid_in(store@),
        ensures
            v@ == self@.read(store@),
            v@.shape == self@.shape,
    {
        store.cells[self.cell]
    }

    /// The shape, as the `Dim4` the port was made with.
    pub fn dims(&self) -> (d: Dim4)
        ensures
            extents(d) == self@.shape,
    {
        self.dims
    }

    /// The four extents of the shape.
    pub fn shape(&self) -> (s: [u64; 4])
        ensures
            s@ == self@.shape,
    {
        extents_of(&self.dims)
    }

    /// Whether the two ports refer to the same cell.
    pub fn shares_cell_with(&self, other: &Port) -> (b: bool)
        ensures
            b == (self@.cell == other@.cell),
    {
        self.cell == other.cell
    }

    /// Whether the port's cell is in `store` and has the port's shape.
    pub fn is_valid_in(&self, store: &Store) -> (b: bool)
        ensures
            b == self@.valid_in(store@),
    {
        if self.cell < store.cells.len() {
            let held: Dim4 = store.cells[self.cell].dims();
            same_extents(&self.dims, &held)
        } else {
            false
        }
    }
}

/// Aliasing is symmetric and immediate: for two ports of equal shape, once
/// `p` has been entangled with `q`, every value that is written through
/// either of them is the value read through the other.
pub proof fn lemma_aliased_ports_share_writes(
    p: PortView,
    q: PortView,
    cells: Seq<ValueView>,
    value: ValueView,
)
    requires
        p.shape == q.shape,
        q.valid_in(cells),
    ensures
        p.entangled(q) is Ok,
        ({
            let p = p.entangled(q)->Ok_0;
            &&& p.valid_in(cells)
            &&& p.stored(cells, value) is Ok <==> q.stored(cells, value) is Ok
            &&& p.stored(cells, value) is Ok ==> q.read(p.stored(cells, value)->Ok_0) == value
            &&& q.stored(cells, value) is Ok ==> p.read(q.stored(cells, value)->Ok_0) == value
        }),
{
}

/// Entangling two ports of different shapes always fails with a shape
/// mismatch that names both shapes.
pub proof fn lemma_mismatched_ports_stay_apart(p: PortView, q: PortView)
    requires
        p.shape != q.shape,
    ensures
        p.entangled(q) == Err::<PortView, ErrorView>(
            ErrorView::ShapeMismatch { expected: p.shape, actual: q.shape },
        ),
{
}

/// Entangling keeps the shape of the port. Entangling again with the same
/// port changes nothing more; entangling with another port gives what
/// entangling with that port at once would have given, so the first sharing
/// is left behind.
pub proof fn lemma_entangle_again(p: PortView, q: PortView, r: PortView)
    requires
        p.shape == q.shape,
        p.shape == r.shape,
    ensures
        p.entangled(q) is Ok,
        p.entangled(q)->Ok_0.shape == p.shape,
        p.entangled(q)->Ok_0.entangled(q) == p.entangled(q),
        p.entangled(q)->Ok_0.entangled(r) == p.entangled(r),
{
}

} // verus!
