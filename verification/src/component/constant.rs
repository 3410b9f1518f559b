//! The constant: a component that stages the same value at every firing.

use crate::component::{
    covers, last_writer, lemma_covers_staged, lemma_published_read, publish_error, publishable,
    published, Component, ComponentStruct,
};
use crate::error::{Error, ErrorView};
use crate::port::{Port, PortView, Store};
use crate::shape::extents;
use crate::table::{Entries, Table};
use crate::unit::{ports_valid, Ports, Unit};
use crate::value::{Value, ValueView};
use arrayfire::Dim4;
use vstd::prelude::*;

verus! {

/// The staged outputs of a constant after it has fired: its value is
/// staged under the name `out`, and every other staged output stays as it
/// is.
pub open spec fn constant_plan(outputs: Entries<ValueView>, value: ValueView) -> Entries<
    ValueView,
> {
    outputs.inserted("out"@, value)
}

/// One cycle of a constant. Firing stages the value under `out`, keeps
/// every other staged output, and leaves no out-port without a staged
/// output that had one. The out-port `out` can then be published exactly
/// when it has the shape of the value; and after publishing it reads the
/// value, whatever the cells held before, unless an out-port that was
/// registered after it shares its cell.
pub proof fn lemma_constant_cycle(
    cells: Seq<ValueView>,
    outs: Entries<PortView>,
    outputs: Entries<ValueView>,
    value: ValueView,
)
    requires
        ports_valid(outs, cells),
        outputs.wf(),
    ensures
        ({
            let staged = constant_plan(outputs, value);
            &&& staged.wf()
            &&& staged.lookup("out"@) == Some(value)
            &&& forall|name: Seq<char>|
                name != "out"@ ==> staged.lookup(name) == outputs.lookup(name)
            &&& covers(outs, outputs) ==> covers(outs, staged)
            &&& forall|i: int|
                0 <= i < outs.len() && outs.names[i] == "out"@ ==> (publishable(outs, staged, i)
                    <==> outs.values[i].shape == value.shape)
            &&& publish_error(outs, staged) is None ==> forall|i: int|
                0 <= i < outs.len() && outs.names[i] == "out"@ && last_writer(
                    outs,
                    outs.values[i].cell as int,
                    outs.len() as int,
                ) == i ==> outs.values[i].read(published(cells, outs, staged)) == value
        }),
{
    let staged = constant_plan(outputs, value);
    outputs.lemma_inserted("out"@, value);
    if covers(outs, outputs) {
        lemma_covers_staged(outs, outputs, "out"@, value);
    }
    if publish_error(outs, staged) is None {
        assert forall|i: int|
            0 <= i < outs.len() && outs.names[i] == "out"@ && last_writer(
                outs,
                outs.values[i].cell as int,
                outs.len() as int,
            ) == i implies outs.values[i].read(published(cells, outs, staged)) == value by {
            lemma_published_read(cells, outs, staged, i);
        }
    }
}

/// A component that ignores its staged inputs and stages a fixed value
/// under the name `out`.
#[derive(Clone, Debug)]
pub struct Constant {
    base: ComponentStruct,
    value: Value,
}

impl Constant {
    /// A constant that stages `value`, without ports.
    pub fn new(value: Value) -> (c: Constant)
        ensures
            c.inv(),
            c.constant() == value@,
            c.ins() == Entries::<PortView>::empty(),
            c.outs() == Entries::<PortView>::empty(),
            c.inputs() == Entries::<ValueView>::empty(),
            c.outputs() == Entries::<ValueView>::empty(),
    {
        Constant { base: ComponentStruct::new(), value }
    }

    /// The value that every firing stages.
    pub closed spec fn constant(&self) -> ValueView {
        self.value@
    }
}

impl Ports for Constant {
    closed spec fn ins(&self) -> Entries<PortView> {
        self.base.ins()
    }

    closed spec fn outs(&self) -> Entries<PortView> {
        self.base.outs()
    }

    closed spec fn inv(&self) -> bool {
        self.base.inv() && self.base.covered()
    }

    open spec fn same_beside_ports(&self, before: &Self) -> bool {
        &&& self.inputs() == before.inputs()
        &&& self.outputs() == before.outputs()
        &&& self.constant() == before.constant()
    }

    proof fn lemma_inv(&self) {
        self.base.lemma_inv();
    }

    fn get_in_port(&self, key: &str) -> (r: Result<&Port, Error>) {
        self.base.get_in_port(key)
    }

    fn get_in_ports(&self) -> (r: &Table<Port>) {
        self.base.get_in_ports()
    }

    fn get_out_port(&self, key: &str) -> (r: Result<&Port, Error>) {
        self.base.get_out_port(key)
    }

    fn get_out_ports(&self) -> (r: &Table<Port>) {
        self.base.get_out_ports()
    }
}

impl Unit for Constant {
    /// The new in-port starts with a zero-filled staged input.
    fn make_in_port(&mut self, store: &mut Store, key: &str, dims: Dim4)
        ensures
            final(self).inputs() == old(self).inputs().inserted(
                key@,
                ValueView::zeros(extents(dims)),
            ),
            final(self).outputs() == old(self).outputs(),
            final(self).constant() == old(self).constant(),
    {
        self.base.make_in_port(store, key, dims);
    }

    /// The staged input of the in-port goes with it.
    fn remove_in_port(&mut self, key: &str)
        ensures
            final(self).inputs() == old(self).inputs().removed(key@),
            final(self).outputs() == old(self).outputs(),
            final(self).constant() == old(self).constant(),
    {
        self.base.remove_in_port(key);
    }

    fn get_in_port_mut(&mut self, key: &str) -> (r: Result<&mut Port, Error>) {
        self.base.get_in_port_mut(key)
    }

    fn alias_in_port<U: Ports>(
        &mut self,
        from: &str,
        other: &U,
        to: &str,
    ) -> (r: Result<(), Error>) {
        self.base.alias_in_port(from, other, to)
    }

    /// The new out-port starts with a zero-filled staged output.
    fn make_out_port(&mut self, store: &mut Store, key: &str, dims: Dim4)
        ensures
            final(self).inputs() == old(self).inputs(),
            final(self).outputs() == old(self).outputs().inserted(
                key@,
                ValueView::zeros(extents(dims)),
            ),
            final(self).constant() == old(self).constant(),
    {
        self.base.make_out_port(store, key, dims);
    }

    /// The staged output of the out-port goes with it.
    fn remove_out_port(&mut self, key: &str)
        ensures
            final(self).inputs() == old(self).inputs(),
            final(self).outputs() == old(self).outputs().removed(key@),
            final(self).constant() == old(self).constant(),
    {
        self.base.remove_out_port(key);
    }

    fn get_out_port_mut(&mut self, key: &str) -> (r: Result<&mut Port, Error>) {
        self.base.get_out_port_mut(key)
    }

    fn alias_out_port<U: Ports>(
        &mut self,
        from: &str,
        other: &U,
        to: &str,
    ) -> (r: Result<(), Error>) {
        self.base.alias_out_port(from, other, to)
    }

    fn connect<U: Ports>(&mut self, from: &str, other: &U, to: &str) -> (r: Result<(), Error>) {
        self.base.connect(from, other, to)
    }
}

impl Component for Constant {
    closed spec fn inputs(&self) -> Entries<ValueView> {
        self.base.inputs()
    }

    closed spec fn outputs(&self) -> Entries<ValueView> {
        self.base.outputs()
    }

    open spec fn fire_plan(&self) -> Result<Entries<ValueView>, ErrorView> {
        Ok(constant_plan(self.outputs(), self.constant()))
    }

    proof fn lemma_staged(&self) {
        self.base.lemma_staged();
    }

    fn input(&mut self, store: &Store)
        ensures
            final(self).constant() == old(self).constant(),
    {
        self.base.input(store);
    }

    fn output(&self, store: &mut Store) -> (r: Result<(), Error>) {
        self.base.output(store)
    }

    fn get_input(&self, key: &str) -> (r: Result<Value, Error>) {
        self.base.get_input(key)
    }

    fn get_output(&self, key: &str) -> (r: Result<Value, Error>) {
        self.base.get_output(key)
    }

    /// Stages the constant's value under the name `out`, beside the
    /// outputs that are staged already.
    fn fire(&mut self) -> (r: Result<(), Error>)
        ensures
            final(self).constant() == old(self).constant(),
    {
        self.base.stage_output("out".to_owned(), self.value);
        Ok(())
    }
}

} // verus!
