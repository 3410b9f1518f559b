//! Modules: units that hold components and other modules under names.

use crate::component::node::Node;
use crate::error::{Error, ErrorView, Place};
use crate::port::{Port, PortView, Store};
use crate::table::{names_of, position_of, Entries, Table};
use crate::unit::{Ports, Unit, UnitStruct};
use arrayfire::Dim4;
use vstd::prelude::*;

verus! {

/// A unit with named components and named submodules. Component names and
/// submodule names are separate namespaces. A module owns its children; a
/// child that is reached through the module is borrowed from it.
#[derive(Debug)]
pub struct Module {
    unit: UnitStruct,
    components: Table<Node>,
    // The submodules are held as two vectors of equal length, names beside
    // values: a type can hold itself in a `Vec`, not in a `Table`.
    submodule_names: Vec<String>,
    submodules: Vec<Module>,
}

impl Module {
    /// A module without ports and without children.
    pub fn new() -> (m: Module)
        ensures
            m.inv(),
            m.ins() == Entries::<PortView>::empty(),
            m.outs() == Entries::<PortView>::empty(),
            m.components() == Entries::<Node>::empty(),
            m.submodules() == Entries::<Module>::empty(),
    {
        let m = Module {
            unit: UnitStruct::new(),
            components: Table::new(),
            submodule_names: Vec::new(),
            submodules: Vec::new(),
        };
        assert(m.submodules().names =~= Seq::<Seq<char>>::empty());
        m
    }

    /// The components, by name.
    pub closed spec fn components(&self) -> Entries<Node> {
        self.components@
    }

    /// The submodules, by name.
    pub closed spec fn submodules(&self) -> Entries<Module> {
        Entries { names: names_of(self.submodule_names@), values: self.submodules@ }
    }

    /// In a module that is in order the names of each namespace are unique,
    /// and every component and every submodule is in order.
    pub proof fn lemma_children(&self)
        requires
            self.inv(),
        ensures
            self.components().wf(),
            self.submodules().wf(),
            forall|i: int|
                0 <= i < self.components().len() ==> (#[trigger] self.components().values[i]).inv(),
            forall|i: int|
                0 <= i < self.submodules().len() ==> (#[trigger] self.submodules().values[i]).inv(),
    {
    }

    /// Registers `component` under `key`. A component that had this name is
    /// replaced.
    pub fn add_component(&mut self, key: &str, component: Node)
        requires
            old(self).inv(),
            component.inv(),
        ensures
            final(self).inv(),
            final(self).components() == old(self).components().inserted(key@, component),
            final(self).submodules() == old(self).submodules(),
            final(self).ins() == old(self).ins(),
            final(self).outs() == old(self).outs(),
    {
        proof {
            self.components@.lemma_inserted(key@, component);
            if self.components@.has(key@) {
                self.components@.lemma_index_of(key@);
            }
        }
        self.components.insert(key.to_owned(), component);
    }

    /// The component registered under `key`, borrowed for as long as the
    /// caller drives it.
    pub fn get_component(&mut self, key: &str) -> (r: Result<&mut Node, Error>)
        requires
            old(self).inv(),
        ensures
            old(self).components().has(key@) <==> r is Ok,
            match r {
                Ok(node) => {
                    &&& *node == old(self).components().at(key@)
                    &&& node.inv()
                    &&& final(self).components() == old(self).components().updated(
                        old(self).components().index_of(key@),
                        *final(node),
                    )
                    &&& final(node).inv() ==> final(self).inv()
                },
                Err(e) => {
                    &&& e@ == (ErrorView::NotFound { key: key@, place: Place::Component })
                    &&& final(self).components() == old(self).components()
                    &&& final(self).inv()
                },
            },
            final(self).submodules() == old(self).submodules(),
            final(self).ins() == old(self).ins(),
            final(self).outs() == old(self).outs(),
    {
        proof {
            if self.components@.has(key@) {
                self.components@.lemma_index_of(key@);
            }
        }
        match self.components.get_mut(key) {
            Some(node) => Ok(node),
            None => Err(Error::not_found(key, Place::Component)),
        }
    }

    /// Registers `submodule` under `key`. A submodule that had this name is
    /// replaced.
    pub fn add_submodule(&mut self, key: &str, submodule: Module)
        requires
            old(self).inv(),
            submodule.inv(),
        ensures
            final(self).inv(),
            final(self).submodules() == old(self).submodules().inserted(key@, submodule),
            final(self).components() == old(self).components(),
            final(self).ins() == old(self).ins(),
            final(self).outs() == old(self).outs(),
    {
        proof {
            self.submodules().lemma_inserted(key@, submodule);
            if self.submodules().has(key@) {
                self.submodules().lemma_index_of(key@);
            }
        }
        match position_of(&self.submodule_names, key) {
            Some(i) => {
                self.submodules.set(i, submodule);
            },
            None => {
                self.submodule_names.push(key.to_owned());
                self.submodules.push(submodule);
                assert(self.submodules().names =~= old(self).submodules().names.push(key@));
            },
        }
    }

    /// The submodule registered under `key`, borrowed for as long as the
    /// caller works on it.
    pub fn get_submodule(&mut self, key: &str) -> (r: Result<&mut Module, Error>)
        requires
            old(self).inv(),
        ensures
            old(self).submodules().has(key@) <==> r is Ok,
            match r {
                Ok(module) => {
                    &&& *module == old(self).submodules().at(key@)
                    &&& module.inv()
                    &&& final(self).submodules() == old(self).submodules().updated(
                        old(self).submodules().index_of(key@),
                        *final(module),
                    )
                    &&& final(module).inv() ==> final(self).inv()
                },
                Err(e) => {
                    &&& e@ == (ErrorView::NotFound { key: key@, place: Place::Submodule })
                    &&& final(self).submodules() == old(self).submodules()
                    &&& final(self).inv()
                },
            },
            final(self).components() == old(self).components(),
            final(self).ins() == old(self).ins(),
            final(self).outs() == old(self).outs(),
    {
        proof {
            if self.submodules().has(key@) {
                self.submodules().lemma_index_of(key@);
            }
        }
        match position_of(&self.submodule_names, key) {
            Some(i) => Ok(&mut self.submodules[i]),
            None => Err(Error::not_found(key, Place::Submodule)),
        }
    }
}

impl Ports for Module {
    closed spec fn ins(&self) -> Entries<PortView> {
        self.unit.ins()
    }

    closed spec fn outs(&self) -> Entries<PortView> {
        self.unit.outs()
    }

    closed spec fn inv(&self) -> bool
        decreases self,
    {
        &&& self.unit.inv()
        &&& self.components.wf()
        &&& names_of(self.submodule_names@).len() == self.submodules@.len()
        &&& names_of(self.submodule_names@).no_duplicates()
        &&& forall|i: int|
            0 <= i < self.components@.len() ==> (#[trigger] self.components@.values[i]).inv()
        &&& forall|i: int| 0 <= i < self.submodules.len() ==> (#[trigger] self.submodules[i]).inv()
    }

    open spec fn same_beside_ports(&self, before: &Self) -> bool {
        &&& self.components() == before.components()
        &&& self.submodules() == before.submodules()
    }

    proof fn lemma_inv(&self) {
        self.unit.lemma_inv();
    }

    fn get_in_port(&self, key: &str) -> (r: Result<&Port, Error>) {
        self.unit.get_in_port(key)
    }

    fn get_in_ports(&self) -> (r: &Table<Port>) {
        self.unit.get_in_ports()
    }

    fn get_out_port(&self, key: &str) -> (r: Result<&Port, Error>) {
        self.unit.get_out_port(key)
    }

    fn get_out_ports(&self) -> (r: &Table<Port>) {
        self.unit.get_out_ports()
    }
}

impl Unit for Module {
    fn make_in_port(&mut self, store: &mut Store, key: &str, dims: Dim4)
        ensures
            final(self).components() == old(self).components(),
            final(self).submodules() == old(self).submodules(),
    {
        self.unit.make_in_port(store, key, dims);
    }

    fn remove_in_port(&mut self, key: &str)
        ensures
            final(self).components() == old(self).components(),
            final(self).submodules() == old(self).submodules(),
    {
        self.unit.remove_in_port(key);
    }

    fn get_in_port_mut(&mut self, key: &str) -> (r: Result<&mut Port, Error>) {
        self.unit.get_in_port_mut(key)
    }

    fn alias_in_port<U: Ports>(
        &mut self,
        from: &str,
        other: &U,
        to: &str,
    ) -> (r: Result<(), Error>) {
        self.unit.alias_in_port(from, other, to)
    }

    fn make_out_port(&mut self, store: &mut Store, key: &str, dims: Dim4)
        ensures
            final(self).components() == old(self).components(),
            final(self).submodules() == old(self).submodules(),
    {
        self.unit.make_out_port(store, key, dims);
    }

    fn remove_out_port(&mut self, key: &str)
        ensures
            final(self).components() == old(self).components(),
            final(self).submodules() == old(self).submodules(),
    {
        self.unit.remove_out_port(key);
    }

    fn get_out_port_mut(&mut self, key: &str) -> (r: Result<&mut Port, Error>) {
        self.unit.get_out_port_mut(key)
    }

    fn alias_out_port<U: Ports>(
        &mut self,
        from: &str,
        other: &U,
        to: &str,
    ) -> (r: Result<(), Error>) {
        self.unit.alias_out_port(from, other, to)
    }

    fn connect<U: Ports>(&mut self, from: &str, other: &U, to: &str) -> (r: Result<(), Error>) {
        self.unit.connect(from, other, to)
    }
}

} // verus!
