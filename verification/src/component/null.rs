//! The sink: a component that computes nothing.

use crate::component::{Component, ComponentStruct};
use crate::error::{Error, ErrorView};
use crate::port::{Port, PortView, Store};
use crate::shape::extents;
use crate::table::{Entries, Table};
use crate::unit::{Ports, Unit};
use crate::value::{Value, ValueView};
use arrayfire::Dim4;
use vstd::prelude::*;

verus! {

/// A component whose firing stages nothing and changes nothing.
#[derive(Clone, Debug)]
pub struct Null {
    base: ComponentStruct,
}

impl Null {
    /// A sink without ports.
    pub fn new() -> (c: Null)
        ensures
            c.inv(),
            c.ins() == Entries::<PortView>::empty(),
            c.outs() == Entries::<PortView>::empty(),
            c.inputs() == Entries::<ValueView>::empty(),
            c.outputs() == Entries::<ValueView>::empty(),
    {
        Null { base: ComponentStruct::new() }
    }
}

impl Ports for Null {
    closed spec fn ins(&self) -> Entries<PortView> {
        self.base.ins()
    }

    closed spec fn outs(&self) -> Entries<PortView> {
        self.base.outs()
    }

    closed spec fn inv(&self) -> bool {
        self.base.inv() && self.base.covered()
    }

    open spec fn same_beside_ports(&self, before: &Self) -> bool {
        &&& self.inputs() == before.inputs()
        &&& self.outputs() == before.outputs()
    }

    proof fn lemma_inv(&self) {
        self.base.lemma_inv();
    }

    fn get_in_port(&self, key: &str) -> (r: Result<&Port, Error>) {
        self.base.get_in_port(key)
    }

    fn get_in_ports(&self) -> (r: &Table<Port>) {
        self.base.get_in_ports()
    }

    fn get_out_port(&self, key: &str) -> (r: Result<&Port, Error>) {
        self.base.get_out_port(key)
    }

    fn get_out_ports(&self) -> (r: &Table<Port>) {
        self.base.get_out_ports()
    }
}

impl Unit for Null {
    /// The new in-port starts with a zero-filled staged input.
    fn make_in_port(&mut self, store: &mut Store, key: &str, dims: Dim4)
        ensures
            final(self).inputs() == old(self).inputs().inserted(
                key@,
                ValueView::zeros(extents(dims)),
            ),
            final(self).outputs() == old(self).outputs(),
    {
        self.base.make_in_port(store, key, dims);
    }

    /// The staged input of the in-port goes with it.
    fn remove_in_port(&mut self, key: &str)
        ensures
            final(self).inputs() == old(self).inputs().removed(key@),
            final(self).outputs() == old(self).outputs(),
    {
        self.base.remove_in_port(key);
    }

    fn get_in_port_mut(&mut self, key: &str) -> (r: Result<&mut Port, Error>) {
        self.base.get_in_port_mut(key)
    }

    fn alias_in_port<U: Ports>(
        &mut self,
        from: &str,
        other: &U,
        to: &str,
    ) -> (r: Result<(), Error>) {
        self.base.alias_in_port(from, other, to)
    }

    /// The new out-port starts with a zero-filled staged output.
    fn make_out_port(&mut self, store: &mut Store, key: &str, dims: Dim4)
        ensures
            final(self).inputs() == old(self).inputs(),
            final(self).outputs() == old(self).outputs().inserted(
                key@,
                ValueView::zeros(extents(dims)),
            ),
    {
        self.base.make_out_port(store, key, dims);
    }

    /// The staged output of the out-port goes with it.
    fn remove_out_port(&mut self, key: &str)
        ensures
            final(self).inputs() == old(self).inputs(),
            final(self).outputs() == old(self).outputs().removed(key@),
    {
        self.base.remove_out_port(key);
    }

    fn get_out_port_mut(&mut self, key: &str) -> (r: Result<&mut Port, Error>) {
        self.base.get_out_port_mut(key)
    }

    fn alias_out_port<U: Ports>(
        &mut self,
        from: &str,
        other: &U,
        to: &str,
    ) -> (r: Result<(), Error>) {
        self.base.alias_out_port(from, other, to)
    }

    fn connect<U: Ports>(&mut self, from: &str, other: &U, to: &str) -> (r: Result<(), Error>) {
        self.base.connect(from, other, to)
    }
}

impl Component for Null {
    closed spec fn inputs(&self) -> Entries<ValueView> {
        self.base.inputs()
    }

    closed spec fn outputs(&self) -> Entries<ValueView> {
        self.base.outputs()
    }

    open spec fn fire_plan(&self) -> Result<Entries<ValueView>, ErrorView> {
        Ok(self.outputs())
    }

    proof fn lemma_staged(&self) {
        self.base.lemma_staged();
    }

    fn input(&mut self, store: &Store)
    {
        self.base.input(store);
    }

    fn output(&self, store: &mut Store) -> (r: Result<(), Error>) {
        self.base.output(store)
    }

    fn get_input(&self, key: &str) -> (r: Result<Value, Error>) {
        self.base.get_input(key)
    }

    fn get_output(&self, key: &str) -> (r: Result<Value, Error>) {
        self.base.get_output(key)
    }

    /// Leaves the staged outputs as they are.
    fn fire(&mut self) -> (r: Result<(), Error>)
    {
        Ok(())
    }
}

} // verus!
