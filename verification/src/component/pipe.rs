//! The pipe: a component that hands one staged input on as a staged output.

use crate::component::{
    captured, covers, last_writer, lemma_covers_staged, lemma_published_read, publish_error,
    publishable, published, Component, ComponentStruct,
};
use crate::error::{Error, ErrorView, Place};
use crate::port::{Port, PortView, Store};
use crate::shape::extents;
use crate::table::{Entries, Table};
use crate::unit::{ports_valid, Ports, Unit};
use crate::value::{Value, ValueView};
use arrayfire::Dim4;
use vstd::prelude::*;

verus! {

/// The staged outputs of a pipe after it has fired: the staged input
/// `from` is staged under the name `to`, and every other staged output stays
/// as it is. Without a staged input `from` the pipe fails.
pub open spec fn pipe_plan(
    inputs: Entries<ValueView>,
    outputs: Entries<ValueView>,
    from: Seq<char>,
    to: Seq<char>,
) -> Result<Entries<ValueView>, ErrorView> {
    if inputs.has(from) {
        Ok(outputs.inserted(to, inputs.at(from)))
    } else {
        Err(ErrorView::NotFound { key: from, place: Place::Input })
    }
}

/// One cycle of a pipe whose input `from` is staged. Firing succeeds: it
/// stages under `to` what the in-port `from` read, keeps every other staged
/// output, and leaves no out-port without a staged output that had one. The
/// out-port `to` can then be published exactly when it has the shape of the
/// in-port `from`; and after publishing it reads what the in-port `from`
/// read when the cycle began, unless an out-port that was registered after
/// it shares its cell.
pub proof fn lemma_pipe_cycle(
    cells: Seq<ValueView>,
    ins: Entries<PortView>,
    outs: Entries<PortView>,
    outputs: Entries<ValueView>,
    from: Seq<char>,
    to: Seq<char>,
)
    requires
        ports_valid(ins, cells),
        ports_valid(outs, cells),
        outputs.wf(),
        ins.has(from),
    ensures
        pipe_plan(captured(ins, cells), outputs, from, to) is Ok,
        ({
            let held = ins.at(from).read(cells);
            let staged = pipe_plan(captured(ins, cells), outputs, from, to)->Ok_0;
            &&& staged.wf()
            &&& staged.lookup(to) == Some(held)
            &&& forall|name: Seq<char>| name != to ==> staged.lookup(name) == outputs.lookup(name)
            &&& covers(outs, outputs) ==> covers(outs, staged)
            &&& forall|i: int|
                0 <= i < outs.len() && outs.names[i] == to ==> (publishable(outs, staged, i) <==> (
                    outs.values[i].shape == ins.at(from).shape
                ))
            &&& publish_error(outs, staged) is None ==> forall|i: int|
                0 <= i < outs.len() && outs.names[i] == to && last_writer(
                    outs,
                    outs.values[i].cell as int,
                    outs.len() as int,
                ) == i ==> outs.values[i].read(published(cells, outs, staged)) == held
        }),
{
    let inputs = captured(ins, cells);
    ins.lemma_index_of(from);
    assert(inputs.has(from));
    let held = ins.at(from).read(cells);
    assert(inputs.at(from) == held);
    assert(ins.values[ins.index_of(from)].valid_in(cells));
    let staged = outputs.inserted(to, held);
    outputs.lemma_inserted(to, held);
    if covers(outs, outputs) {
        lemma_covers_staged(outs, outputs, to, held);
    }
    if publish_error(outs, staged) is None {
        assert forall|i: int|
            0 <= i < outs.len() && outs.names[i] == to && last_writer(
                outs,
                outs.values[i].cell as int,
                outs.len() as int,
            ) == i implies outs.values[i].read(published(cells, outs, staged)) == held by {
            lemma_published_read(cells, outs, staged, i);
        }
    }
}

/// A component that copies the staged input of one name to the staged
/// output of another.
#[derive(Clone, Debug)]
pub struct Pipe {
    base: ComponentStruct,
    from: String,
    to: String,
}

impl Pipe {
    /// A pipe from the input `map.0` to the output `map.1`, without ports.
    pub fn new(map: (&str, &str)) -> (p: Pipe)
        ensures
            p.inv(),
            p.route() == (map.0@, map.1@),
            p.ins() == Entries::<PortView>::empty(),
            p.outs() == Entries::<PortView>::empty(),
            p.inputs() == Entries::<ValueView>::empty(),
            p.outputs() == Entries::<ValueView>::empty(),
    {
        Pipe { base: ComponentStruct::new(), from: map.0.to_owned(), to: map.1.to_owned() }
    }

    /// The name of the input that is read and the name of the output that
    /// is staged.
    pub closed spec fn route(&self) -> (Seq<char>, Seq<char>) {
        (self.from@, self.to@)
    }
}

impl Ports for Pipe {
    closed spec fn ins(&self) -> Entries<PortView> {
        self.base.ins()
    }

    closed spec fn outs(&self) -> Entries<PortView> {
        self.base.outs()
    }

    closed spec fn inv(&self) -> bool {
        self.base.inv() && self.base.covered()
    }

    open spec fn same_beside_ports(&self, before: &Self) -> bool {
        &&& self.inputs() == before.inputs()
        &&& self.outputs() == before.outputs()
        &&& self.route() == before.route()
    }

    proof fn lemma_inv(&self) {
        self.base.lemma_inv();
    }

    fn get_in_port(&self, key: &str) -> (r: Result<&Port, Error>) {
        self.base.get_in_port(key)
    }

    fn get_in_ports(&self) -> (r: &Table<Port>) {
        self.base.get_in_ports()
    }

    fn get_out_port(&self, key: &str) -> (r: Result<&Port, Error>) {
        self.base.get_out_port(key)
    }

    fn get_out_ports(&self) -> (r: &Table<Port>) {
        self.base.get_out_ports()
    }
}

impl Unit for Pipe {
    /// The new in-port starts with a zero-filled staged input.
    fn make_in_port(&mut self, store: &mut Store, key: &str, dims: Dim4)
        ensures
            final(self).inputs() == old(self).inputs().inserted(
                key@,
                ValueView::zeros(extents(dims)),
            ),
            final(self).outputs() == old(self).outputs(),
            final(self).route() == old(self).route(),
    {
        self.base.make_in_port(store, key, dims);
    }

    /// The staged input of the in-port goes with it.
    fn remove_in_port(&mut self, key: &str)
        ensures
            final(self).inputs() == old(self).inputs().removed(key@),
            final(self).outputs() == old(self).outputs(),
            final(self).route() == old(self).route(),
    {
        self.base.remove_in_port(key);
    }

    fn get_in_port_mut(&mut self, key: &str) -> (r: Result<&mut Port, Error>) {
        self.base.get_in_port_mut(key)
    }

    fn alias_in_port<U: Ports>(
        &mut self,
        from: &str,
        other: &U,
        to: &str,
    ) -> (r: Result<(), Error>) {
        self.base.alias_in_port(from, other, to)
    }

    /// The new out-port starts with a zero-filled staged output.
    fn make_out_port(&mut self, store: &mut Store, key: &str, dims: Dim4)
        ensures
            final(self).inputs() == old(self).inputs(),
            final(self).outputs() == old(self).outputs().inserted(
                key@,
                ValueView::zeros(extents(dims)),
            ),
            final(self).route() == old(self).route(),
    {
        self.base.make_out_port(store, key, dims);
    }

    /// The staged output of the out-port goes with it.
    fn remove_out_port(&mut self, key: &str)
        ensures
            final(self).inputs() == old(self).inputs(),
            final(self).outputs() == old(self).outputs().removed(key@),
            final(self).route() == old(self).route(),
    {
        self.base.remove_out_port(key);
    }

    fn get_out_port_mut(&mut self, key: &str) -> (r: Result<&mut Port, Error>) {
        self.base.get_out_port_mut(key)
    }

    fn alias_out_port<U: Ports>(
        &mut self,
        from: &str,
        other: &U,
        to: &str,
    ) -> (r: Result<(), Error>) {
        self.base.alias_out_port(from, other, to)
    }

    fn connect<U: Ports>(&mut self, from: &str, other: &U, to: &str) -> (r: Result<(), Error>) {
        self.base.connect(from, other, to)
    }
}

impl Component for Pipe {
    closed spec fn inputs(&self) -> Entries<ValueView> {
        self.base.inputs()
    }

    closed spec fn outputs(&self) -> Entries<ValueView> {
        self.base.outputs()
    }

    open spec fn fire_plan(&self) -> Result<Entries<ValueView>, ErrorView> {
        pipe_plan(self.inputs(), self.outputs(), self.route().0, self.route().1)
    }

    proof fn lemma_staged(&self) {
        self.base.lemma_staged();
    }

    fn input(&mut self, store: &Store)
        ensures
            final(self).route() == old(self).route(),
    {
        self.base.input(store);
    }

    fn output(&self, store: &mut Store) -> (r: Result<(), Error>) {
        self.base.output(store)
    }

    fn get_input(&self, key: &str) -> (r: Result<Value, Error>) {
        self.base.get_input(key)
    }

    fn get_output(&self, key: &str) -> (r: Result<Value, Error>) {
        self.base.get_output(key)
    }

    /// Stages the input of the pipe's first name as the output of its
    /// second name, beside the outputs that are staged already.
    fn fire(&mut self) -> (r: Result<(), Error>)
        ensures
            final(self).route() == old(self).route(),
    {
        match self.base.get_input(self.from.as_str()) {
            Ok(x) => {
                self.base.stage_output(self.to.clone(), x);
                Ok(())
            },
            Err(e) => Err(e),
        }
    }
}

} // verus!
