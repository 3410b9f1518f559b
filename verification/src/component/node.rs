//! The closed set of component kinds, as one type.

use crate::component::constant::{constant_plan, Constant};
use crate::component::null::Null;
use crate::component::pipe::{pipe_plan, Pipe};
use crate::component::Component;
use crate::error::{Error, ErrorView};
use crate::port::{Port, PortView, Store};
use crate::shape::extents;
use crate::table::{Entries, Table};
use crate::unit::{Ports, Unit};
use crate::value::{Value, ValueView};
use arrayfire::Dim4;
use vstd::prelude::*;

verus! {

/// A component of any kind.
#[derive(Clone, Debug)]
pub enum Node {
    Constant(Constant),
    Pipe(Pipe),
    Null(Null),
}

/// What a component was made with: its kind, and the parameters of that
/// kind. No operation on a component changes it.
pub enum Recipe {
    /// Stages `value` under the name `out`.
    Constant { value: ValueView },
    /// Stages the input `from` under the name `to`.
    Pipe { from: Seq<char>, to: Seq<char> },
    /// Stages nothing.
    Null,
}

/// What firing stages, as a function of the recipe and the staged state
/// alone.
pub open spec fn plan(
    recipe: Recipe,
    inputs: Entries<ValueView>,
    outputs: Entries<ValueView>,
) -> Result<Entries<ValueView>, ErrorView> {
    match recipe {
        Recipe::Constant { value } => Ok(constant_plan(outputs, value)),
        Recipe::Pipe { from, to } => pipe_plan(inputs, outputs, from, to),
        Recipe::Null => Ok(outputs),
    }
}

impl Node {
    /// The kind of the component and what it was made with.
    pub open spec fn recipe(&self) -> Recipe {
        match *self {
            Node::Constant(c) => Recipe::Constant { value: c.constant() },
            Node::Pipe(c) => Recipe::Pipe { from: c.route().0, to: c.route().1 },
            Node::Null(_) => Recipe::Null,
        }
    }

    /// Firing is a function of the recipe and the staged state: it depends
    /// on no port and on no cell.
    pub proof fn lemma_fire_plan(&self)
        ensures
            self.fire_plan() == plan(self.recipe(), self.inputs(), self.outputs()),
    {
    }
}

impl Ports for Node {
    open spec fn ins(&self) -> Entries<PortView> {
        match *self {
            Node::Constant(c) => c.ins(),
            Node::Pipe(c) => c.ins(),
            Node::Null(c) => c.ins(),
        }
    }

    open spec fn outs(&self) -> Entries<PortView> {
        match *self {
            Node::Constant(c) => c.outs(),
            Node::Pipe(c) => c.outs(),
            Node::Null(c) => c.outs(),
        }
    }

    open spec fn inv(&self) -> bool {
        match *self {
            Node::Constant(c) => c.inv(),
            Node::Pipe(c) => c.inv(),
            Node::Null(c) => c.inv(),
        }
    }

    open spec fn same_beside_ports(&self, before: &Self) -> bool {
        match (*self, *before) {
            (Node::Constant(c), Node::Constant(b)) => c.same_beside_ports(&b),
            (Node::Pipe(c), Node::Pipe(b)) => c.same_beside_ports(&b),
            (Node::Null(c), Node::Null(b)) => c.same_beside_ports(&b),
            _ => false,
        }
    }

    proof fn lemma_inv(&self) {
        match *self {
            Node::Constant(c) => c.lemma_inv(),
            Node::Pipe(c) => c.lemma_inv(),
            Node::Null(c) => c.lemma_inv(),
        }
    }

    fn get_in_port(&self, key: &str) -> (r: Result<&Port, Error>) {
        match self {
            Node::Constant(c) => c.get_in_port(key),
            Node::Pipe(c) => c.get_in_port(key),
            Node::Null(c) => c.get_in_port(key),
        }
    }

    fn get_in_ports(&self) -> (r: &Table<Port>) {
        match self {
            Node::Constant(c) => c.get_in_ports(),
            Node::Pipe(c) => c.get_in_ports(),
            Node::Null(c) => c.get_in_ports(),
        }
    }

    fn get_out_port(&self, key: &str) -> (r: Result<&Port, Error>) {
        match self {
            Node::Constant(c) => c.get_out_port(key),
            Node::Pipe(c) => c.get_out_port(key),
            Node::Null(c) => c.get_out_port(key),
        }
    }

    fn get_out_ports(&self) -> (r: &Table<Port>) {
        match self {
            Node::Constant(c) => c.get_out_ports(),
            Node::Pipe(c) => c.get_out_ports(),
            Node::Null(c) => c.get_out_ports(),
        }
    }
}

impl Unit for Node {
    /// The new in-port starts with a zero-filled staged input.
    fn make_in_port(&mut self, store: &mut Store, key: &str, dims: Dim4)
        ensures
            final(self).inputs() == old(self).inputs().inserted(
                key@,
                ValueView::zeros(extents(dims)),
            ),
            final(self).outputs() == old(self).outputs(),
            final(self).recipe() == old(self).recipe(),
    {
        match self {
            Node::Constant(c) => c.make_in_port(store, key, dims),
            Node::Pipe(c) => c.make_in_port(store, key, dims),
            Node::Null(c) => c.make_in_port(store, key, dims),
        }
    }

    /// The staged input of the in-port goes with it.
    fn remove_in_port(&mut self, key: &str)
        ensures
            final(self).inputs() == old(self).inputs().removed(key@),
            final(self).outputs() == old(self).outputs(),
            final(self).recipe() == old(self).recipe(),
    {
        match self {
            Node::Constant(c) => c.remove_in_port(key),
            Node::Pipe(c) => c.remove_in_port(key),
            Node::Null(c) => c.remove_in_port(key),
        }
    }

    fn get_in_port_mut(&mut self, key: &str) -> (r: Result<&mut Port, Error>) {
        match self {
            Node::Constant(c) => c.get_in_port_mut(key),
            Node::Pipe(c) => c.get_in_port_mut(key),
            Node::Null(c) => c.get_in_port_mut(key),
        }
    }

    fn alias_in_port<U: Ports>(
        &mut self,
        from: &str,
        other: &U,
        to: &str,
    ) -> (r: Result<(), Error>) {
        match self {
            Node::Constant(c) => c.alias_in_port(from, other, to),
            Node::Pipe(c) => c.alias_in_port(from, other, to),
            Node::Null(c) => c.alias_in_port(from, other, to),
        }
    }

    /// The new out-port starts with a zero-filled staged output.
    fn make_out_port(&mut self, store: &mut Store, key: &str, dims: Dim4)
        ensures
            final(self).inputs() == old(self).inputs(),
            final(self).outputs() == old(self).outputs().inserted(
                key@,
                ValueView::zeros(extents(dims)),
            ),
            final(self).recipe() == old(self).recipe(),
    {
        match self {
            Node::Constant(c) => c.make_out_port(store, key, dims),
            Node::Pipe(c) => c.make_out_port(store, key, dims),
            Node::Null(c) => c.make_out_port(store, key, dims),
        }
    }

    /// The staged output of the out-port goes with it.
    fn remove_out_port(&mut self, key: &str)
        ensures
            final(self).inputs() == old(self).inputs(),
            final(self).outputs() == old(self).outputs().removed(key@),
            final(self).recipe() == old(self).recipe(),
    {
        match self {
            Node::Constant(c) => c.remove_out_port(key),
            Node::Pipe(c) => c.remove_out_port(key),
            Node::Null(c) => c.remove_out_port(key),
        }
    }

    fn get_out_port_mut(&mut self, key: &str) -> (r: Result<&mut Port, Error>) {
        match self {
            Node::Constant(c) => c.get_out_port_mut(key),
            Node::Pipe(c) => c.get_out_port_mut(key),
            Node::Null(c) => c.get_out_port_mut(key),
        }
    }

    fn alias_out_port<U: Ports>(
        &mut self,
        from: &str,
        other: &U,
        to: &str,
    ) -> (r: Result<(), Error>) {
        match self {
            Node::Constant(c) => c.alias_out_port(from, other, to),
            Node::Pipe(c) => c.alias_out_port(from, other, to),
            Node::Null(c) => c.alias_out_port(from, other, to),
        }
    }

    fn connect<U: Ports>(&mut self, from: &str, other: &U, to: &str) -> (r: Result<(), Error>) {
        match self {
            Node::Constant(c) => c.connect(from, other, to),
            Node::Pipe(c) => c.connect(from, other, to),
            Node::Null(c) => c.connect(from, other, to),
        }
    }
}

impl Component for Node {
    open spec fn inputs(&self) -> Entries<ValueView> {
        match *self {
            Node::Constant(c) => c.inputs(),
            Node::Pipe(c) => c.inputs(),
            Node::Null(c) => c.inputs(),
        }
    }

    open spec fn outputs(&self) -> Entries<ValueView> {
        match *self {
            Node::Constant(c) => c.outputs(),
            Node::Pipe(c) => c.outputs(),
            Node::Null(c) => c.outputs(),
        }
    }

    open spec fn fire_plan(&self) -> Result<Entries<ValueView>, ErrorView> {
        match *self {
            Node::Constant(c) => c.fire_plan(),
            Node::Pipe(c) => c.fire_plan(),
            Node::Null(c) => c.fire_plan(),
        }
    }

    proof fn lemma_staged(&self) {
        match *self {
            Node::Constant(c) => c.lemma_staged(),
            Node::Pipe(c) => c.lemma_staged(),
            Node::Null(c) => c.lemma_staged(),
        }
    }

    fn input(&mut self, store: &Store)
        ensures
            final(self).recipe() == old(self).recipe(),
    {
        match self {
            Node::Constant(c) => c.input(store),
            Node::Pipe(c) => c.input(store),
            Node::Null(c) => c.input(store),
        }
    }

    fn output(&self, store: &mut Store) -> (r: Result<(), Error>) {
        match self {
            Node::Constant(c) => c.output(store),
            Node::Pipe(c) => c.output(store),
            Node::Null(c) => c.output(store),
        }
    }

    fn get_input(&self, key: &str) -> (r: Result<Value, Error>) {
        match self {
            Node::Constant(c) => c.get_input(key),
            Node::Pipe(c) => c.get_input(key),
            Node::Null(c) => c.get_input(key),
        }
    }

    fn get_output(&self, key: &str) -> (r: Result<Value, Error>) {
        match self {
            Node::Constant(c) => c.get_output(key),
            Node::Pipe(c) => c.get_output(key),
            Node::Null(c) => c.get_output(key),
        }
    }

    fn fire(&mut self) -> (r: Result<(), Error>)
        ensures
            final(self).recipe() == old(self).recipe(),
    {
        match self {
            Node::Constant(c) => c.fire(),
            Node::Pipe(c) => c.fire(),
            Node::Null(c) => c.fire(),
        }
    }
}

} // verus!
