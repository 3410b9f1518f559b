//! Components: units with a three-phase cycle.
//!
//! `input` copies the current values of the in-ports into the staged inputs,
//! `fire` computes the staged outputs from the staged inputs, and `output`
//! publishes the staged outputs through the out-ports. Only `input` reads
//! cells and only `output` writes them.
//!
//! Every out-port of a component has a staged output, from the moment the
//! port is made: `fire` stages what it computes beside the outputs that are
//! staged already. A kind of component that is built on [`ComponentStruct`]
//! outside this crate may stage less; `output` then reports the out-port
//! that was left out.

use crate::error::{Error, ErrorView, Place};
use crate::port::{keeps_shapes, Port, PortView, Store};
use crate::shape::{extents, same_extents};
use crate::table::{Entries, Table};
use crate::unit::{
    found, lemma_aliasing, port_views, ports_valid, Ports, Unit, UnitStruct,
};
use crate::value::{Value, ValueView};
use arrayfire::Dim4;
use vstd::prelude::*;

pub mod constant;
pub mod node;
pub mod null;
pub mod pipe;

verus! {

/// The content of a table of staged values.
pub open spec fn value_views(values: Entries<Value>) -> Entries<ValueView> {
    values.mapped(|v: Value| v@)
}

/// What `input` stages: under the name of each in-port, the value read
/// through it.
pub open spec fn captured(ins: Entries<PortView>, cells: Seq<ValueView>) -> Entries<ValueView> {
    ins.mapped(|p: PortView| p.read(cells))
}

/// Whether a value is staged under the name of the out-port at place `i`.
pub open spec fn staged_for(outs: Entries<PortView>, staged: Entries<ValueView>, i: int) -> bool {
    staged.has(outs.names[i])
}

/// Whether what is staged under the name of the out-port at place `i` has
/// the port's shape.
pub open spec fn fits(outs: Entries<PortView>, staged: Entries<ValueView>, i: int) -> bool {
    staged.at(outs.names[i]).shape == outs.values[i].shape
}

/// Whether the out-port at place `i` can be published: a value is staged
/// under its name, and the value has the port's shape.
pub open spec fn publishable(outs: Entries<PortView>, staged: Entries<ValueView>, i: int) -> bool {
    &&& staged_for(outs, staged, i)
    &&& fits(outs, staged, i)
}

/// Whether a value is staged under the name of every out-port.
pub open spec fn covers(outs: Entries<PortView>, staged: Entries<ValueView>) -> bool {
    forall|i: int| 0 <= i < outs.len() ==> staged.has(#[trigger] outs.names[i])
}

/// The first place from `from` on whose out-port has no staged value, or
/// the number of out-ports if there is none.
pub open spec fn first_unstaged(
    outs: Entries<PortView>,
    staged: Entries<ValueView>,
    from: int,
) -> int
    decreases outs.len() - from,
{
    if from >= outs.len() {
        outs.len() as int
    } else if !staged_for(outs, staged, from) {
        from
    } else {
        first_unstaged(outs, staged, from + 1)
    }
}

/// The first place from `from` on whose out-port has another shape than
/// what is staged under its name, or the number of out-ports if there is
/// none.
pub open spec fn first_unfit(outs: Entries<PortView>, staged: Entries<ValueView>, from: int) -> int
    decreases outs.len() - from,
{
    if from >= outs.len() {
        outs.len() as int
    } else if !fits(outs, staged, from) {
        from
    } else {
        first_unfit(outs, staged, from + 1)
    }
}

/// Why `output` fails, if it does. A missing staged value comes before any
/// mismatch of shapes: where an out-port has no staged value, the first such
/// port is named as an incomplete result; only where every out-port has a
/// staged value does the first one of another shape give a shape mismatch.
pub open spec fn publish_error(outs: Entries<PortView>, staged: Entries<ValueView>) -> Option<
    ErrorView,
> {
    let m = first_unstaged(outs, staged, 0);
    let k = first_unfit(outs, staged, 0);
    if m < outs.len() {
        Some(ErrorView::IncompleteResult { key: outs.names[m] })
    } else if k < outs.len() {
        Some(
            ErrorView::ShapeMismatch {
                expected: outs.values[k].shape,
                actual: staged.at(outs.names[k]).shape,
            },
        )
    } else {
        None
    }
}

/// The last of the first `n` out-ports that refers to the cell `c`, or -1
/// if none of them does.
pub open spec fn last_writer(outs: Entries<PortView>, c: int, n: int) -> int
    decreases n,
{
    if n <= 0 {
        -1
    } else if outs.values[n - 1].cell == c {
        n - 1
    } else {
        last_writer(outs, c, n - 1)
    }
}

/// The cells after the first `n` out-ports have been published: a cell to
/// which one of them refers holds what is staged for the last such port,
/// and every other cell holds what it held.
pub open spec fn published_upto(
    cells: Seq<ValueView>,
    outs: Entries<PortView>,
    staged: Entries<ValueView>,
    n: int,
) -> Seq<ValueView> {
    Seq::new(
        cells.len(),
        |c: int|
            {
                let k = last_writer(outs, c, n);
                if k < 0 {
                    cells[c]
                } else {
                    staged.at(outs.names[k])
                }
            },
    )
}

/// The cells after all out-ports have been published.
pub open spec fn published(
    cells: Seq<ValueView>,
    outs: Entries<PortView>,
    staged: Entries<ValueView>,
) -> Seq<ValueView> {
    published_upto(cells, outs, staged, outs.len() as int)
}

/// `first_unstaged` finds the least place without a staged value.
pub proof fn lemma_first_unstaged(outs: Entries<PortView>, staged: Entries<ValueView>, from: int)
    requires
        0 <= from <= outs.len(),
    ensures
        from <= first_unstaged(outs, staged, from) <= outs.len(),
        forall|j: int|
            from <= j < first_unstaged(outs, staged, from) ==> staged_for(outs, staged, j),
        first_unstaged(outs, staged, from) < outs.len() ==> !staged_for(
            outs,
            staged,
            first_unstaged(outs, staged, from),
        ),
    decreases outs.len() - from,
{
    if from < outs.len() && staged_for(outs, staged, from) {
        lemma_first_unstaged(outs, staged, from + 1);
    }
}

/// `first_unfit` finds the least place whose staged value has another shape
/// than the out-port.
pub proof fn lemma_first_unfit(outs: Entries<PortView>, staged: Entries<ValueView>, from: int)
    requires
        0 <= from <= outs.len(),
    ensures
        from <= first_unfit(outs, staged, from) <= outs.len(),
        forall|j: int| from <= j < first_unfit(outs, staged, from) ==> fits(outs, staged, j),
        first_unfit(outs, staged, from) < outs.len() ==> !fits(
            outs,
            staged,
            first_unfit(outs, staged, from),
        ),
    decreases outs.len() - from,
{
    if from < outs.len() && fits(outs, staged, from) {
        lemma_first_unfit(outs, staged, from + 1);
    }
}

/// `output` succeeds exactly when every out-port can be published; it
/// reports an incomplete result exactly when some out-port has no staged
/// value, whatever the shapes are.
pub proof fn lemma_publish_error(outs: Entries<PortView>, staged: Entries<ValueView>)
    ensures
        publish_error(outs, staged) is None <==> forall|i: int|
            0 <= i < outs.len() ==> publishable(outs, staged, i),
        publish_error(outs, staged) is Some && publish_error(outs, staged)->0 is IncompleteResult
            <==> !covers(outs, staged),
        covers(outs, staged) && publish_error(outs, staged) is Some ==> publish_error(
            outs,
            staged,
        )->0 is ShapeMismatch,
{
    lemma_first_unstaged(outs, staged, 0);
    lemma_first_unfit(outs, staged, 0);
    let m = first_unstaged(outs, staged, 0);
    let k = first_unfit(outs, staged, 0);
    if m < outs.len() {
        assert(!publishable(outs, staged, m));
    } else if k < outs.len() {
        assert(!publishable(outs, staged, k));
    } else {
        assert forall|i: int| 0 <= i < outs.len() implies publishable(outs, staged, i) by {
            assert(staged_for(outs, staged, i) && fits(outs, staged, i));
        }
    }
    if m < outs.len() {
        assert(!staged.has(outs.names[m]));
    } else {
        assert forall|i: int| 0 <= i < outs.len() implies staged.has(#[trigger] outs.names[i]) by {
            assert(staged_for(outs, staged, i));
        }
    }
    if covers(outs, staged) {
        assert forall|i: int| 0 <= i < outs.len() implies staged_for(outs, staged, i) by {
            assert(staged.has(outs.names[i]));
        }
    }
}

/// Staging one more value leaves no out-port without a staged value that
/// had one.
pub proof fn lemma_covers_staged(
    outs: Entries<PortView>,
    staged: Entries<ValueView>,
    name: Seq<char>,
    value: ValueView,
)
    requires
        staged.wf(),
        covers(outs, staged),
    ensures
        covers(outs, staged.inserted(name, value)),
{
    staged.lemma_inserted(name, value);
    assert forall|i: int| 0 <= i < outs.len() implies staged.inserted(name, value).has(
        #[trigger] outs.names[i],
    ) by {
        assert(staged.has(outs.names[i]));
        if outs.names[i] != name {
            assert(staged.inserted(name, value).lookup(outs.names[i]) == staged.lookup(
                outs.names[i],
            ));
        }
    }
}

/// An out-port that is made together with a staged value leaves no
/// out-port without one.
pub proof fn lemma_covers_made(
    outs: Entries<PortView>,
    staged: Entries<ValueView>,
    name: Seq<char>,
    port: PortView,
    value: ValueView,
)
    requires
        outs.wf(),
        staged.wf(),
        covers(outs, staged),
    ensures
        covers(outs.inserted(name, port), staged.inserted(name, value)),
{
    outs.lemma_inserted(name, port);
    staged.lemma_inserted(name, value);
    let more = outs.inserted(name, port);
    assert forall|i: int| 0 <= i < more.len() implies staged.inserted(name, value).has(
        #[trigger] more.names[i],
    ) by {
        let n = more.names[i];
        if n != name {
            more.lemma_place(i);
            assert(more.lookup(n) == outs.lookup(n));
            outs.lemma_index_of(n);
            assert(staged.has(outs.names[outs.index_of(n)]));
            assert(staged.inserted(name, value).lookup(n) == staged.lookup(n));
        }
    }
}

/// An out-port that is removed together with its staged value leaves no
/// other out-port without one.
pub proof fn lemma_covers_removed(
    outs: Entries<PortView>,
    staged: Entries<ValueView>,
    name: Seq<char>,
)
    requires
        outs.wf(),
        staged.wf(),
        covers(outs, staged),
    ensures
        covers(outs.removed(name), staged.removed(name)),
{
    outs.lemma_removed(name);
    staged.lemma_removed(name);
    let fewer = outs.removed(name);
    assert forall|i: int| 0 <= i < fewer.len() implies staged.removed(name).has(
        #[trigger] fewer.names[i],
    ) by {
        let n = fewer.names[i];
        fewer.lemma_place(i);
        assert(n != name);
        assert(fewer.lookup(n) == outs.lookup(n));
        outs.lemma_index_of(n);
        assert(staged.has(outs.names[outs.index_of(n)]));
        assert(staged.removed(name).lookup(n) == staged.lookup(n));
    }
}

/// The last writer of a cell is one of the ports counted, and refers to
/// the cell.
pub proof fn lemma_last_writer(outs: Entries<PortView>, c: int, n: int)
    requires
        0 <= n <= outs.len(),
    ensures
        -1 <= last_writer(outs, c, n) < n,
        last_writer(outs, c, n) >= 0 ==> outs.values[last_writer(outs, c, n)].cell == c,
        forall|j: int| last_writer(outs, c, n) < j < n ==> outs.values[j].cell != c,
    decreases n,
{
    if n > 0 && outs.values[n - 1].cell != c {
        lemma_last_writer(outs, c, n - 1);
    }
}

/// Publishing one more out-port is one more write.
pub proof fn lemma_published_step(
    cells: Seq<ValueView>,
    outs: Entries<PortView>,
    staged: Entries<ValueView>,
    n: int,
)
    requires
        0 <= n < outs.len(),
        outs.values[n].cell < cells.len(),
    ensures
        published_upto(cells, outs, staged, n + 1) == outs.values[n].written(
            published_upto(cells, outs, staged, n),
            staged.at(outs.names[n]),
        ),
{
    assert(published_upto(cells, outs, staged, n + 1) =~= outs.values[n].written(
        published_upto(cells, outs, staged, n),
        staged.at(outs.names[n]),
    ));
}

/// Publishing keeps the shape of every cell, where every out-port is valid
/// and can be published.
pub proof fn lemma_published_keeps_shapes(
    cells: Seq<ValueView>,
    outs: Entries<PortView>,
    staged: Entries<ValueView>,
    n: int,
)
    requires
        0 <= n <= outs.len(),
        ports_valid(outs, cells),
        forall|j: int| 0 <= j < n ==> publishable(outs, staged, j),
    ensures
        keeps_shapes(cells, published_upto(cells, outs, staged, n)),
{
    let after = published_upto(cells, outs, staged, n);
    assert forall|c: int| 0 <= c < cells.len() implies (#[trigger] after[c]).shape
        == cells[c].shape by {
        lemma_last_writer(outs, c, n);
        let k = last_writer(outs, c, n);
        if k >= 0 {
            assert(outs.values[k].valid_in(cells));
            assert(publishable(outs, staged, k));
        }
    }
}

/// Publishing twice is publishing once: a second `output` without a `fire`
/// in between writes the same values into the same cells, and fails exactly
/// when the first one does.
pub proof fn lemma_output_is_idempotent(
    cells: Seq<ValueView>,
    outs: Entries<PortView>,
    staged: Entries<ValueView>,
)
    ensures
        published(published(cells, outs, staged), outs, staged) == published(cells, outs, staged),
{
    assert(published(published(cells, outs, staged), outs, staged) =~= published(
        cells,
        outs,
        staged,
    ));
}

/// After publishing, a read through any out-port gives what is staged for
/// the last out-port that refers to the same cell; where no two out-ports
/// share a cell, that is the port's own staged value.
pub proof fn lemma_published_read(
    cells: Seq<ValueView>,
    outs: Entries<PortView>,
    staged: Entries<ValueView>,
    i: int,
)
    requires
        ports_valid(outs, cells),
        0 <= i < outs.len(),
    ensures
        ({
            let k = last_writer(outs, outs.values[i].cell as int, outs.len() as int);
            &&& i <= k < outs.len()
            &&& outs.values[k].cell == outs.values[i].cell
            &&& outs.values[i].read(published(cells, outs, staged)) == staged.at(outs.names[k])
        }),
{
    lemma_last_writer(outs, outs.values[i].cell as int, outs.len() as int);
    assert(outs.values[i].valid_in(cells));
}

/// Publishing changes no cell but those to which an out-port refers, and
/// adds none.
pub proof fn lemma_published_elsewhere(
    cells: Seq<ValueView>,
    outs: Entries<PortView>,
    staged: Entries<ValueView>,
    c: int,
)
    requires
        outs.wf(),
        0 <= c < cells.len(),
        forall|i: int| 0 <= i < outs.len() ==> outs.values[i].cell != c,
    ensures
        published(cells, outs, staged).len() == cells.len(),
        published(cells, outs, staged)[c] == cells[c],
{
    lemma_last_writer(outs, c, outs.len() as int);
}

/// One tick of latency for each wire. Where an in-port shares its cell
/// with an out-port of a component, an `input` before that component's
/// `output` stages what the cell held until then, and an `input` after it
/// stages what the `output` published into the cell.
pub proof fn lemma_wired_input_lags_one_tick(
    cells: Seq<ValueView>,
    outs: Entries<PortView>,
    staged: Entries<ValueView>,
    ins: Entries<PortView>,
    i: int,
    k: int,
)
    requires
        ports_valid(outs, cells),
        ins.wf(),
        0 <= i < ins.len(),
        0 <= k < outs.len(),
        ins.values[i].cell == outs.values[k].cell,
    ensures
        captured(ins, cells).values[i] == outs.values[k].read(cells),
        captured(ins, published(cells, outs, staged)).values[i] == outs.values[k].read(
            published(cells, outs, staged),
        ),
        outs.values[k].read(published(cells, outs, staged)) == staged.at(
            outs.names[last_writer(outs, outs.values[k].cell as int, outs.len() as int)],
        ),
{
    lemma_published_read(cells, outs, staged, k);
}

/// A unit with staged inputs and staged outputs, and the three phases of a
/// cycle.
pub trait Component: Unit {
    /// The staged inputs, by name.
    spec fn inputs(&self) -> Entries<ValueView>;

    /// The staged outputs, by name.
    spec fn outputs(&self) -> Entries<ValueView>;

    /// What the staged outputs are after `fire`, or why it fails. It
    /// depends on the staged inputs, on the staged outputs and on what the
    /// component was made with, never on a cell.
    spec fn fire_plan(&self) -> Result<Entries<ValueView>, ErrorView>;

    /// The staged names are unique, the staged inputs mirror the in-ports,
    /// and every out-port has a staged output.
    proof fn lemma_staged(&self)
        requires
            self.inv(),
        ensures
            self.inputs().wf(),
            self.outputs().wf(),
            self.inputs().names == self.ins().names,
            covers(self.outs(), self.outputs()),
    ;

    /// Stages, under the name of each in-port, the value that the port's
    /// cell holds now.
    fn input(&mut self, store: &Store)
        requires
            old(self).inv(),
            ports_valid(old(self).ins(), store@),
        ensures
            final(self).inv(),
            final(self).ins() == old(self).ins(),
            final(self).outs() == old(self).outs(),
            final(self).outputs() == old(self).outputs(),
            final(self).inputs() == captured(old(self).ins(), store@),
    ;

    /// Writes, through each out-port, the value staged under the port's
    /// name. Where an out-port has no staged value, the first such port is
    /// reported; else where a staged value has another shape than its port,
    /// the first such port is reported. In both cases nothing is written at
    /// all.
    fn output(&self, store: &mut Store) -> (r: Result<(), Error>)
        requires
            self.inv(),
            ports_valid(self.outs(), old(store)@),
        ensures
            match publish_error(self.outs(), self.outputs()) {
                Some(e) => r is Err && r->Err_0@ == e && final(store)@ == old(store)@,
                None => r is Ok && final(store)@ == published(
                    old(store)@,
                    self.outs(),
                    self.outputs(),
                ),
            },
            keeps_shapes(old(store)@, final(store)@),
    ;

    /// The staged input under `key`.
    fn get_input(&self, key: &str) -> (r: Result<Value, Error>)
        requires
            self.inv(),
        ensures
            match found(self.inputs(), key@, Place::Input) {
                Ok(x) => r is Ok && r->Ok_0@ == x,
                Err(e) => r is Err && r->Err_0@ == e,
            },
    ;

    /// The staged output under `key`.
    fn get_output(&self, key: &str) -> (r: Result<Value, Error>)
        requires
            self.inv(),
        ensures
            match found(self.outputs(), key@, Place::Output) {
                Ok(x) => r is Ok && r->Ok_0@ == x,
                Err(e) => r is Err && r->Err_0@ == e,
            },
    ;

    /// Computes the staged outputs from the staged inputs; every out-port
    /// has a staged output afterwards, as before. No port and no cell is
    /// read or written.
    fn fire(&mut self) -> (r: Result<(), Error>)
        requires
            old(self).inv(),
        ensures
            final(self).inv(),
            final(self).ins() == old(self).ins(),
            final(self).outs() == old(self).outs(),
            final(self).inputs() == old(self).inputs(),
            match old(self).fire_plan() {
                Ok(staged) => r is Ok && final(self).outputs() == staged,
                Err(e) => r is Err && r->Err_0@ == e && final(self).outputs() == old(
                    self,
                ).outputs(),
            },
    ;
}

/// What every kind of component is built on: a unit, the staged inputs and
/// the staged outputs.
#[derive(Clone, Debug)]
pub struct ComponentStruct {
    unit: UnitStruct,
    inputs: Table<Value>,
    outputs: Table<Value>,
}

/// Looks `key` up among staged values, which are those of `place`.
fn find_value(values: &Table<Value>, key: &str, place: Place) -> (r: Result<Value, Error>)
    requires
        values.wf(),
    ensures
        match found(value_views(values@), key@, place) {
            Ok(x) => r is Ok && r->Ok_0@ == x,
            Err(e) => r is Err && r->Err_0@ == e,
        },
{
    proof {
        if values@.has(key@) {
            values@.lemma_index_of(key@);
        }
    }
    match values.get(key) {
        Some(x) => Ok(*x),
        None => Err(Error::not_found(key, place)),
    }
}

impl ComponentStruct {
    /// A component without ports and without staged values.
    pub fn new() -> (c: ComponentStruct)
        ensures
            c.inv(),
            c.ins() == Entries::<PortView>::empty(),
            c.outs() == Entries::<PortView>::empty(),
            c.inputs() == Entries::<ValueView>::empty(),
            c.outputs() == Entries::<ValueView>::empty(),
            c.covered(),
    {
        let c = ComponentStruct {
            unit: UnitStruct::new(),
            inputs: Table::new(),
            outputs: Table::new(),
        };
        assert(c.inputs().values =~= Seq::<ValueView>::empty());
        assert(c.outputs().values =~= Seq::<ValueView>::empty());
        c
    }

    /// The staged inputs, by name.
    pub closed spec fn inputs(&self) -> Entries<ValueView> {
        value_views(self.inputs@)
    }

    /// The staged outputs, by name.
    pub closed spec fn outputs(&self) -> Entries<ValueView> {
        value_views(self.outputs@)
    }

    /// Whether every out-port has a staged output. It is so in a new
    /// component, and every operation but `stage_outputs` keeps it so.
    pub open spec fn covered(&self) -> bool {
        covers(self.outs(), self.outputs())
    }

    /// The staged names are unique, and the staged inputs mirror the
    /// in-ports.
    pub proof fn lemma_staged(&self)
        requires
            self.inv(),
        ensures
            self.inputs().wf(),
            self.outputs().wf(),
            self.inputs().names == self.ins().names,
    {
    }

    /// Stages, under the name of each in-port, the value that the port's
    /// cell holds now.
    pub fn input(&mut self, store: &Store)
        requires
            old(self).inv(),
            ports_valid(old(self).ins(), store@),
        ensures
            final(self).inv(),
            final(self).ins() == old(self).ins(),
            final(self).outs() == old(self).outs(),
            final(self).outputs() == old(self).outputs(),
            final(self).inputs() == captured(old(self).ins(), store@),
    {
        let ghost ins = self.ins();
        let n: usize = self.unit.get_in_ports().len();
        let mut i: usize = 0;
        while i < n
            invariant
                self.inv(),
                self.unit == old(self).unit,
                self.outputs == old(self).outputs,
                ins == self.ins(),
                ports_valid(ins, store@),
                n == ins.len(),
                i <= n,
                forall|j: int| 0 <= j < i ==> self.inputs().values[j] == ins.values[j].read(store@),
            decreases n - i,
        {
            let ports = self.unit.get_in_ports();
            proof {
                assert(ins.values[i as int] == ports@.values[i as int]@);
                assert(ins.values[i as int].valid_in(store@));
                self.inputs@.lemma_place(i as int);
            }
            let key: String = ports.name_at(i).clone();
            let value: Value = ports.value_at(i).read(store);
            let ghost before = self.inputs();
            self.inputs.insert(key, value);
            proof {
                assert forall|j: int| 0 <= j < i + 1 implies self.inputs().values[j]
                    == ins.values[j].read(store@) by {
                    if j < i {
                        assert(self.inputs().values[j] == before.values[j]);
                    }
                }
            }
            i = i + 1;
        }
        assert(self.inputs().values =~= captured(ins, store@).values);
    }

    /// Writes, through each out-port, the value staged under the port's
    /// name. Where an out-port has no staged value, the first such port is
    /// reported; else where a staged value has another shape than its port,
    /// the first such port is reported. In both cases nothing is written at
    /// all.
    pub fn output(&self, store: &mut Store) -> (r: Result<(), Error>)
        requires
            self.inv(),
            ports_valid(self.outs(), old(store)@),
        ensures
            match publish_error(self.outs(), self.outputs()) {
                Some(e) => r is Err && r->Err_0@ == e && final(store)@ == old(store)@,
                None => r is Ok && final(store)@ == published(
                    old(store)@,
                    self.outs(),
                    self.outputs(),
                ),
            },
            keeps_shapes(old(store)@, final(store)@),
    {
        let ghost outs = self.outs();
        let ghost staged = self.outputs();
        let ports = self.unit.get_out_ports();
        let n: usize = ports.len();
        let mut values: Vec<Value> = Vec::new();
        let mut i: usize = 0;
        while i < n
            invariant
                self.inv(),
                ports.wf(),
                outs == self.outs(),
                outs == port_views(ports@),
                staged == self.outputs(),
                n == outs.len(),
                i <= n,
                first_unstaged(outs, staged, 0) == first_unstaged(outs, staged, i as int),
                values.len() == i,
                forall|j: int| 0 <= j < i ==> (#[trigger] values[j])@ == staged.at(outs.names[j]),
            decreases n - i,
        {
            let key = ports.name_at(i);
            proof {
                if self.outputs@.has(key@) {
                    self.outputs@.lemma_index_of(key@);
                }
            }
            match self.outputs.get(key.as_str()) {
                None => {
                    return Err(Error::incomplete(key.as_str()));
                },
                Some(value) => {
                    values.push(*value);
                },
            }
            i = i + 1;
        }
        let mut i: usize = 0;
        while i < n
            invariant
                ports.wf(),
                outs == port_views(ports@),
                n == outs.len(),
                i <= n,
                outs == self.outs(),
                staged == self.outputs(),
                first_unstaged(outs, staged, 0) == n,
                first_unfit(outs, staged, 0) == first_unfit(outs, staged, i as int),
                values.len() == n,
                forall|j: int| 0 <= j < i ==> fits(outs, staged, j),
                forall|j: int| 0 <= j < n ==> (#[trigger] values[j])@ == staged.at(outs.names[j]),
            decreases n - i,
        {
            proof {
                assert(outs.values[i as int] == ports@.values[i as int]@);
            }
            let expected: Dim4 = ports.value_at(i).dims();
            let actual: Dim4 = values[i].dims();
            if !same_extents(&expected, &actual) {
                assert(!fits(outs, staged, i as int));
                return Err(Error::shape_mismatch(expected, actual));
            }
            i = i + 1;
        }
        proof {
            lemma_first_unstaged(outs, staged, 0);
            assert(published_upto(old(store)@, outs, staged, 0) =~= old(store)@);
        }
        let mut i: usize = 0;
        while i < n
            invariant
                ports.wf(),
                outs == port_views(ports@),
                n == outs.len(),
                i <= n,
                ports_valid(outs, old(store)@),
                values.len() == n,
                forall|j: int| 0 <= j < n ==> publishable(outs, staged, j),
                forall|j: int| 0 <= j < n ==> (#[trigger] values[j])@ == staged.at(outs.names[j]),
                store@ == published_upto(old(store)@, outs, staged, i as int),
            decreases n - i,
        {
            proof {
                assert(outs.values[i as int] == ports@.values[i as int]@);
                assert(publishable(outs, staged, i as int));
                lemma_published_keeps_shapes(old(store)@, outs, staged, i as int);
                assert(outs.values[i as int].valid_in(old(store)@));
                lemma_published_step(old(store)@, outs, staged, i as int);
            }
            ports.value_at(i).replace(store, values[i]);
            i = i + 1;
        }
        proof {
            lemma_published_keeps_shapes(old(store)@, outs, staged, n as int);
        }
        Ok(())
    }

    /// The staged input under `key`.
    pub fn get_input(&self, key: &str) -> (r: Result<Value, Error>)
        requires
            self.inv(),
        ensures
            match found(self.inputs(), key@, Place::Input) {
                Ok(x) => r is Ok && r->Ok_0@ == x,
                Err(e) => r is Err && r->Err_0@ == e,
            },
    {
        find_value(&self.inputs, key, Place::Input)
    }

    /// The staged output under `key`.
    pub fn get_output(&self, key: &str) -> (r: Result<Value, Error>)
        requires
            self.inv(),
        ensures
            match found(self.outputs(), key@, Place::Output) {
                Ok(x) => r is Ok && r->Ok_0@ == x,
                Err(e) => r is Err && r->Err_0@ == e,
            },
    {
        find_value(&self.outputs, key, Place::Output)
    }

    /// Stages `value` as the output `key`, beside the outputs that are
    /// staged already. This is how a kind of component stages what its
    /// `fire` has computed.
    pub fn stage_output(&mut self, key: String, value: Value)
        requires
            old(self).inv(),
        ensures
            final(self).inv(),
            final(self).ins() == old(self).ins(),
            final(self).outs() == old(self).outs(),
            final(self).inputs() == old(self).inputs(),
            final(self).outputs() == old(self).outputs().inserted(key@, value@),
            old(self).covered() ==> final(self).covered(),
    {
        proof {
            self.outputs@.lemma_mapped_inserted(|v: Value| v@, key@, value);
            if self.covered() {
                lemma_covers_staged(self.outs(), self.outputs(), key@, value@);
            }
        }
        self.outputs.insert(key, value);
    }

    /// Replaces the staged outputs by `outputs`, all of them. The new
    /// outputs need not cover the out-ports: `output` reports an out-port
    /// that is left without a staged output.
    pub fn stage_outputs(&mut self, outputs: Table<Value>)
        requires
            old(self).inv(),
            outputs.wf(),
        ensures
            final(self).inv(),
            final(self).ins() == old(self).ins(),
            final(self).outs() == old(self).outs(),
            final(self).inputs() == old(self).inputs(),
            final(self).outputs() == value_views(outputs@),
    {
        self.outputs = outputs;
    }
}

impl Ports for ComponentStruct {
    closed spec fn ins(&self) -> Entries<PortView> {
        self.unit.ins()
    }

    closed spec fn outs(&self) -> Entries<PortView> {
        self.unit.outs()
    }

    closed spec fn inv(&self) -> bool {
        &&& self.unit.inv()
        &&& self.inputs.wf()
        &&& self.outputs.wf()
        &&& self.inputs@.names == self.unit.ins().names
    }

    open spec fn same_beside_ports(&self, before: &Self) -> bool {
        &&& self.inputs() == before.inputs()
        &&& self.outputs() == before.outputs()
    }

    proof fn lemma_inv(&self) {
        self.unit.lemma_inv();
    }

    fn get_in_port(&self, key: &str) -> (r: Result<&Port, Error>) {
        self.unit.get_in_port(key)
    }

    fn get_in_ports(&self) -> (r: &Table<Port>) {
        self.unit.get_in_ports()
    }

    fn get_out_port(&self, key: &str) -> (r: Result<&Port, Error>) {
        self.unit.get_out_port(key)
    }

    fn get_out_ports(&self) -> (r: &Table<Port>) {
        self.unit.get_out_ports()
    }
}

impl Unit for ComponentStruct {
    /// The new in-port starts with a zero-filled staged input.
    fn make_in_port(&mut self, store: &mut Store, key: &str, dims: Dim4)
        ensures
            final(self).inputs() == old(self).inputs().inserted(
                key@,
                ValueView::zeros(extents(dims)),
            ),
            final(self).outputs() == old(self).outputs(),
    {
        let zero = Value::zeros(dims);
        proof {
            self.inputs@.lemma_mapped_inserted(|v: Value| v@, key@, zero);
        }
        self.unit.make_in_port(store, key, dims);
        self.inputs.insert(key.to_owned(), zero);
    }

    /// The staged input of the in-port goes with it.
    fn remove_in_port(&mut self, key: &str)
        ensures
            final(self).inputs() == old(self).inputs().removed(key@),
            final(self).outputs() == old(self).outputs(),
    {
        proof {
            self.inputs@.lemma_mapped_removed(|v: Value| v@, key@);
        }
        self.unit.remove_in_port(key);
        let _ = self.inputs.remove(key);
    }

    fn get_in_port_mut(&mut self, key: &str) -> (r: Result<&mut Port, Error>)
        ensures
            old(self).covered() ==> final(self).covered(),
    {
        self.unit.get_in_port_mut(key)
    }

    fn alias_in_port<U: Ports>(
        &mut self,
        from: &str,
        other: &U,
        to: &str,
    ) -> (r: Result<(), Error>) {
        proof {
            if self.unit.ins().has(from@) {
                self.unit.lemma_inv();
                self.unit.ins().lemma_index_of(from@);
            }
        }
        self.unit.alias_in_port(from, other, to)
    }

    /// The new out-port starts with a zero-filled staged output.
    fn make_out_port(&mut self, store: &mut Store, key: &str, dims: Dim4)
        ensures
            final(self).inputs() == old(self).inputs(),
            final(self).outputs() == old(self).outputs().inserted(
                key@,
                ValueView::zeros(extents(dims)),
            ),
            old(self).covered() ==> final(self).covered(),
    {
        let zero = Value::zeros(dims);
        proof {
            self.outputs@.lemma_mapped_inserted(|v: Value| v@, key@, zero);
            if self.covered() {
                self.unit.lemma_inv();
                lemma_covers_made(
                    self.outs(),
                    self.outputs(),
                    key@,
                    PortView { shape: extents(dims), cell: store@.len() },
                    zero@,
                );
            }
        }
        self.unit.make_out_port(store, key, dims);
        self.outputs.insert(key.to_owned(), zero);
    }

    /// The staged output of the out-port goes with it.
    fn remove_out_port(&mut self, key: &str)
        ensures
            final(self).inputs() == old(self).inputs(),
            final(self).outputs() == old(self).outputs().removed(key@),
            old(self).covered() ==> final(self).covered(),
    {
        proof {
            self.outputs@.lemma_mapped_removed(|v: Value| v@, key@);
            if self.covered() {
                self.unit.lemma_inv();
                lemma_covers_removed(self.outs(), self.outputs(), key@);
            }
        }
        self.unit.remove_out_port(key);
        let _ = self.outputs.remove(key);
    }

    fn get_out_port_mut(&mut self, key: &str) -> (r: Result<&mut Port, Error>)
        ensures
            old(self).covered() ==> final(self).covered(),
    {
        self.unit.get_out_port_mut(key)
    }

    fn alias_out_port<U: Ports>(
        &mut self,
        from: &str,
        other: &U,
        to: &str,
    ) -> (r: Result<(), Error>)
        ensures
            old(self).covered() ==> final(self).covered(),
    {
        let ghost before = self.outs();
        let r = self.unit.alias_out_port(from, other, to);
        proof {
            if r is Ok {
                old(self).unit.lemma_inv();
                lemma_aliasing(before, from@, Place::OutPort, other.outs(), to@, Place::OutPort);
            }
        }
        r
    }

    fn connect<U: Ports>(&mut self, from: &str, other: &U, to: &str) -> (r: Result<(), Error>) {
        proof {
            if self.unit.ins().has(from@) {
                self.unit.lemma_inv();
                self.unit.ins().lemma_index_of(from@);
            }
        }
        self.unit.connect(from, other, to)
    }
}

} // verus!
