//! Units: two namespaces of ports, one for inputs and one for outputs.

use crate::error::{Error, ErrorView, Place};
use crate::port::{keeps_shapes, Port, PortView, Store};
use crate::shape::extents;
use crate::table::{Entries, Table};
use crate::value::ValueView;
use arrayfire::Dim4;
use vstd::prelude::*;

verus! {

/// The content of a table of ports.
pub open spec fn port_views(ports: Entries<Port>) -> Entries<PortView> {
    ports.mapped(|p: Port| p@)
}

/// The names are unique and every port is valid in `cells`.
pub open spec fn ports_valid(ports: Entries<PortView>, cells: Seq<ValueView>) -> bool {
    &&& ports.wf()
    &&& forall|i: int| 0 <= i < ports.len() ==> (#[trigger] ports.values[i]).valid_in(cells)
}

/// What a lookup of `key` gives among `entries`, which are those of the
/// namespace `place`.
pub open spec fn found<V>(entries: Entries<V>, key: Seq<char>, place: Place) -> Result<
    V,
    ErrorView,
> {
    if entries.has(key) {
        Ok(entries.at(key))
    } else {
        Err(ErrorView::NotFound { key, place })
    }
}

/// What aliasing the port `from` of `mine` onto the port `to` of `theirs`
/// gives: the new content of `mine`, or the reason why nothing changes.
/// The name `from` is looked up first, then `to`, then the shapes are
/// compared.
pub open spec fn aliasing(
    mine: Entries<PortView>,
    from: Seq<char>,
    from_place: Place,
    theirs: Entries<PortView>,
    to: Seq<char>,
    to_place: Place,
) -> Result<Entries<PortView>, ErrorView> {
    match found(mine, from, from_place) {
        Err(e) => Err(e),
        Ok(port) => match found(theirs, to, to_place) {
            Err(e) => Err(e),
            Ok(target) => match port.entangled(target) {
                Err(e) => Err(e),
                Ok(aliased) => Ok(mine.inserted(from, aliased)),
            },
        },
    }
}

/// A port that has been made is found under its name, as it was made; a
/// name that is neither the new one nor was registered before is not found.
pub proof fn lemma_made_port_is_found(
    ports: Entries<PortView>,
    key: Seq<char>,
    port: PortView,
    other: Seq<char>,
    place: Place,
)
    requires
        ports.wf(),
    ensures
        found(ports.inserted(key, port), key, place) == Ok::<PortView, ErrorView>(port),
        other != key && !ports.has(other) ==> found(ports.inserted(key, port), other, place)
            == Err::<PortView, ErrorView>(ErrorView::NotFound { key: other, place }),
{
    ports.lemma_inserted(key, port);
}

/// After a successful aliasing the port `from` refers to the cell of the
/// port `to` and has the shape it had; no name is added or lost, and every
/// other port is as it was.
pub proof fn lemma_aliasing(
    mine: Entries<PortView>,
    from: Seq<char>,
    from_place: Place,
    theirs: Entries<PortView>,
    to: Seq<char>,
    to_place: Place,
)
    requires
        mine.wf(),
        aliasing(mine, from, from_place, theirs, to, to_place) is Ok,
    ensures
        ({
            let after = aliasing(mine, from, from_place, theirs, to, to_place)->Ok_0;
            &&& after.wf()
            &&& after.names == mine.names
            &&& mine.has(from) && theirs.has(to)
            &&& after.at(from).cell == theirs.at(to).cell
            &&& after.at(from).shape == mine.at(from).shape
            &&& mine.at(from).shape == theirs.at(to).shape
            &&& forall|other: Seq<char>| other != from ==> after.lookup(other) == mine.lookup(other)
        }),
{
    let port = mine.at(from).aliased(theirs.at(to));
    mine.lemma_inserted(from, port);
    mine.lemma_index_of(from);
}

/// Ports that are valid stay valid while the cells keep their shapes.
pub proof fn lemma_ports_stay_valid(
    ports: Entries<PortView>,
    before: Seq<ValueView>,
    after: Seq<ValueView>,
)
    requires
        ports_valid(ports, before),
        keeps_shapes(before, after),
    ensures
        ports_valid(ports, after),
{
}

/// A port that is registered in a valid table is valid.
pub proof fn lemma_registered_port_valid(
    ports: Entries<PortView>,
    cells: Seq<ValueView>,
    name: Seq<char>,
)
    requires
        ports_valid(ports, cells),
        ports.has(name),
    ensures
        ports.at(name).valid_in(cells),
{
    ports.lemma_index_of(name);
}

/// Registering a valid port keeps a table valid.
pub proof fn lemma_ports_valid_inserted(
    ports: Entries<PortView>,
    cells: Seq<ValueView>,
    name: Seq<char>,
    port: PortView,
)
    requires
        ports_valid(ports, cells),
        port.valid_in(cells),
    ensures
        ports_valid(ports.inserted(name, port), cells),
{
    ports.lemma_inserted(name, port);
    if ports.has(name) {
        ports.lemma_index_of(name);
    }
}

/// Removing a port keeps a table valid.
pub proof fn lemma_ports_valid_removed(
    ports: Entries<PortView>,
    cells: Seq<ValueView>,
    name: Seq<char>,
)
    requires
        ports_valid(ports, cells),
    ensures
        ports_valid(ports.removed(name), cells),
{
    ports.lemma_removed(name);
    if ports.has(name) {
        ports.lemma_index_of(name);
        let k = ports.index_of(name);
        let after = ports.removed(name);
        assert forall|i: int| 0 <= i < after.len() implies (#[trigger] after.values[i]).valid_in(
            cells,
        ) by {
            if i < k {
                assert(after.values[i] == ports.values[i]);
            } else {
                assert(after.values[i] == ports.values[i + 1]);
            }
        }
    }
}

/// Replacing the port at one place by a valid port keeps a table valid.
pub proof fn lemma_ports_valid_updated(
    ports: Entries<PortView>,
    cells: Seq<ValueView>,
    i: int,
    port: PortView,
)
    requires
        ports_valid(ports, cells),
        0 <= i < ports.len(),
        port.valid_in(cells),
    ensures
        ports_valid(ports.updated(i, port), cells),
{
}

/// Aliasing between valid tables keeps the aliased table valid.
pub proof fn lemma_ports_valid_aliasing(
    mine: Entries<PortView>,
    from: Seq<char>,
    from_place: Place,
    theirs: Entries<PortView>,
    to: Seq<char>,
    to_place: Place,
    cells: Seq<ValueView>,
)
    requires
        ports_valid(mine, cells),
        ports_valid(theirs, cells),
        aliasing(mine, from, from_place, theirs, to, to_place) is Ok,
    ensures
        ports_valid(aliasing(mine, from, from_place, theirs, to, to_place)->Ok_0, cells),
{
    lemma_registered_port_valid(mine, cells, from);
    lemma_registered_port_valid(theirs, cells, to);
    lemma_ports_valid_inserted(mine, cells, from, mine.at(from).aliased(theirs.at(to)));
}

/// The ports of a unit, for reading: the two namespaces and the lookups in
/// them. The namespaces are independent: an in-port and an out-port may
/// have the same name.
pub trait Ports {
    /// The in-ports, by name.
    spec fn ins(&self) -> Entries<PortView>;

    /// The out-ports, by name.
    spec fn outs(&self) -> Entries<PortView>;

    /// What holds of every value of the type, whatever the cells are.
    spec fn inv(&self) -> bool;

    /// Whether `self` is as `before` was in everything but its ports.
    spec fn same_beside_ports(&self, before: &Self) -> bool;

    /// In each namespace a name occurs at most once.
    proof fn lemma_inv(&self)
        requires
            self.inv(),
        ensures
            self.ins().wf(),
            self.outs().wf(),
    ;

    /// The in-port registered under `key`.
    fn get_in_port(&self, key: &str) -> (r: Result<&Port, Error>)
        requires
            self.inv(),
        ensures
            match found(self.ins(), key@, Place::InPort) {
                Ok(x) => r is Ok && r->Ok_0@ == x,
                Err(e) => r is Err && r->Err_0@ == e,
            },
    ;

    /// All in-ports.
    fn get_in_ports(&self) -> (r: &Table<Port>)
        requires
            self.inv(),
        ensures
            r.wf(),
            port_views(r@) == self.ins(),
    ;

    /// The out-port registered under `key`.
    fn get_out_port(&self, key: &str) -> (r: Result<&Port, Error>)
        requires
            self.inv(),
        ensures
            match found(self.outs(), key@, Place::OutPort) {
                Ok(x) => r is Ok && r->Ok_0@ == x,
                Err(e) => r is Err && r->Err_0@ == e,
            },
    ;

    /// All out-ports.
    fn get_out_ports(&self) -> (r: &Table<Port>)
        requires
            self.inv(),
        ensures
            r.wf(),
            port_views(r@) == self.outs(),
    ;
}

/// Something that has in-ports and out-ports, which can be made, removed
/// and wired to the ports of other units.
pub trait Unit: Ports {
    /// Makes an in-port of shape `dims` with a fresh cell and registers it
    /// under `key`. An in-port that had this name is replaced.
    fn make_in_port(&mut self, store: &mut Store, key: &str, dims: Dim4)
        requires
            old(self).inv(),
        ensures
            final(self).inv(),
            final(store)@ == old(store)@.push(ValueView::zeros(extents(dims))),
            final(self).ins() == old(self).ins().inserted(
                key@,
                PortView { shape: extents(dims), cell: old(store)@.len() },
            ),
            final(self).outs() == old(self).outs(),
            ports_valid(old(self).ins(), old(store)@) ==> ports_valid(
                final(self).ins(),
                final(store)@,
            ),
            ports_valid(old(self).outs(), old(store)@) ==> ports_valid(
                final(self).outs(),
                final(store)@,
            ),
    ;

    /// Removes the in-port registered under `key`, if there is one.
    fn remove_in_port(&mut self, key: &str)
        requires
            old(self).inv(),
        ensures
            final(self).inv(),
            final(self).ins() == old(self).ins().removed(key@),
            final(self).outs() == old(self).outs(),
            forall|cells: Seq<ValueView>|
                ports_valid(old(self).ins(), cells) ==> #[trigger] ports_valid(
                    final(self).ins(),
                    cells,
                ),
    ;

    /// The in-port registered under `key`, for the caller to change in
    /// place: it can be entangled with any port, registered or not.
    fn get_in_port_mut(&mut self, key: &str) -> (r: Result<&mut Port, Error>)
        requires
            old(self).inv(),
        ensures
            final(self).inv(),
            final(self).same_beside_ports(old(self)),
            final(self).outs() == old(self).outs(),
            old(self).ins().has(key@) <==> r is Ok,
            match r {
                Ok(port) => {
                    &&& port@ == old(self).ins().at(key@)
                    &&& final(self).ins() == old(self).ins().updated(
                        old(self).ins().index_of(key@),
                        final(port)@,
                    )
                    &&& forall|cells: Seq<ValueView>|
                        ports_valid(old(self).ins(), cells) && final(port)@.valid_in(cells)
                            ==> #[trigger] ports_valid(final(self).ins(), cells)
                },
                Err(e) => {
                    &&& e@ == (ErrorView::NotFound { key: key@, place: Place::InPort })
                    &&& final(self).ins() == old(self).ins()
                },
            },
    ;

    /// Makes the in-port `from` refer to the cell of the in-port `to` of
    /// `other`.
    fn alias_in_port<U: Ports>(&mut self, from: &str, other: &U, to: &str) -> (r: Result<(), Error>)
        requires
            old(self).inv(),
            other.inv(),
        ensures
            final(self).inv(),
            final(self).same_beside_ports(old(self)),
            final(self).outs() == old(self).outs(),
            match aliasing(old(self).ins(), from@, Place::InPort, other.ins(), to@, Place::InPort) {
                Ok(ports) => r is Ok && final(self).ins() == ports,
                Err(e) => r is Err && r->Err_0@ == e && final(self).ins() == old(self).ins(),
            },
            forall|cells: Seq<ValueView>|
                ports_valid(old(self).ins(), cells) && ports_valid(other.ins(), cells)
                    ==> #[trigger] ports_valid(final(self).ins(), cells),
    ;

    /// Makes an out-port of shape `dims` with a fresh cell and registers it
    /// under `key`. An out-port that had this name is replaced.
    fn make_out_port(&mut self, store: &mut Store, key: &str, dims: Dim4)
        requires
            old(self).inv(),
        ensures
            final(self).inv(),
            final(store)@ == old(store)@.push(ValueView::zeros(extents(dims))),
            final(self).outs() == old(self).outs().inserted(
                key@,
                PortView { shape: extents(dims), cell: old(store)@.len() },
            ),
            final(self).ins() == old(self).ins(),
            ports_valid(old(self).ins(), old(store)@) ==> ports_valid(
                final(self).ins(),
                final(store)@,
            ),
            ports_valid(old(self).outs(), old(store)@) ==> ports_valid(
                final(self).outs(),
                final(store)@,
            ),
    ;

    /// Removes the out-port registered under `key`, if there is one.
    fn remove_out_port(&mut self, key: &str)
        requires
            old(self).inv(),
        ensures
            final(self).inv(),
            final(self).outs() == old(self).outs().removed(key@),
            final(self).ins() == old(self).ins(),
            forall|cells: Seq<ValueView>|
                ports_valid(old(self).outs(), cells) ==> #[trigger] ports_valid(
                    final(self).outs(),
                    cells,
                ),
    ;

    /// The out-port registered under `key`, for the caller to change in
    /// place: it can be entangled with any port, registered or not.
    fn get_out_port_mut(&mut self, key: &str) -> (r: Result<&mut Port, Error>)
        requires
            old(self).inv(),
        ensures
            final(self).inv(),
            final(self).same_beside_ports(old(self)),
            final(self).ins() == old(self).ins(),
            old(self).outs().has(key@) <==> r is Ok,
            match r {
                Ok(port) => {
                    &&& port@ == old(self).outs().at(key@)
                    &&& final(self).outs() == old(self).outs().updated(
                        old(self).outs().index_of(key@),
                        final(port)@,
                    )
                    &&& forall|cells: Seq<ValueView>|
                        ports_valid(old(self).outs(), cells) && final(port)@.valid_in(cells)
                            ==> #[trigger] ports_valid(final(self).outs(), cells)
                },
                Err(e) => {
                    &&& e@ == (ErrorView::NotFound { key: key@, place: Place::OutPort })
                    &&& final(self).outs() == old(self).outs()
                },
            },
    ;

    /// Makes the out-port `from` refer to the cell of the out-port `to` of
    /// `other`.
    fn alias_out_port<U: Ports>(
        &mut self,
        from: &str,
        other: &U,
        to: &str,
    ) -> (r: Result<(), Error>)
        requires
            old(self).inv(),
            other.inv(),
        ensures
            final(self).inv(),
            final(self).same_beside_ports(old(self)),
            final(self).ins() == old(self).ins(),
            match aliasing(
                old(self).outs(),
                from@,
                Place::OutPort,
                other.outs(),
                to@,
                Place::OutPort,
            ) {
                Ok(ports) => r is Ok && final(self).outs() == ports,
                Err(e) => r is Err && r->Err_0@ == e && final(self).outs() == old(self).outs(),
            },
            forall|cells: Seq<ValueView>|
                ports_valid(old(self).outs(), cells) && ports_valid(other.outs(), cells)
                    ==> #[trigger] ports_valid(final(self).outs(), cells),
    ;

    /// Wires the in-port `from` to the out-port `to` of `other`: from now on
    /// the in-port refers to the cell of that out-port.
    fn connect<U: Ports>(&mut self, from: &str, other: &U, to: &str) -> (r: Result<(), Error>)
        requires
            old(self).inv(),
            other.inv(),
        ensures
            final(self).inv(),
            final(self).same_beside_ports(old(self)),
            final(self).outs() == old(self).outs(),
            match aliasing(
                old(self).ins(),
                from@,
                Place::InPort,
                other.outs(),
                to@,
                Place::OutPort,
            ) {
                Ok(ports) => r is Ok && final(self).ins() == ports,
                Err(e) => r is Err && r->Err_0@ == e && final(self).ins() == old(self).ins(),
            },
            forall|cells: Seq<ValueView>|
                ports_valid(old(self).ins(), cells) && ports_valid(other.outs(), cells)
                    ==> #[trigger] ports_valid(final(self).ins(), cells),
    ;
}

/// The plain unit: the two tables of ports and nothing else.
#[derive(Clone, Debug)]
pub struct UnitStruct {
    in_ports: Table<Port>,
    out_ports: Table<Port>,
}

/// Registers a fresh port of shape `dims` under `key`.
fn make_port(ports: &mut Table<Port>, store: &mut Store, key: &str, dims: Dim4)
    requires
        old(ports).wf(),
    ensures
        final(ports).wf(),
        final(store)@ == old(store)@.push(ValueView::zeros(extents(dims))),
        port_views(final(ports)@) == port_views(old(ports)@).inserted(
            key@,
            PortView { shape: extents(dims), cell: old(store)@.len() },
        ),
        ports_valid(port_views(old(ports)@), old(store)@) ==> ports_valid(
            port_views(final(ports)@),
            final(store)@,
        ),
{
    let port = Port::new(store, dims);
    proof {
        ports@.lemma_mapped_inserted(|p: Port| p@, key@, port);
        if ports_valid(port_views(ports@), old(store)@) {
            lemma_ports_stay_valid(port_views(ports@), old(store)@, store@);
            lemma_ports_valid_inserted(port_views(ports@), store@, key@, port@);
        }
    }
    ports.insert(key.to_owned(), port);
}

/// Looks `key` up among `ports`, which are those of the namespace `place`.
fn find_port<'a>(ports: &'a Table<Port>, key: &str, place: Place) -> (r: Result<&'a Port, Error>)
    requires
        ports.wf(),
    ensures
        match found(port_views(ports@), key@, place) {
            Ok(x) => r is Ok && r->Ok_0@ == x,
            Err(e) => r is Err && r->Err_0@ == e,
        },
{
    proof {
        if ports@.has(key@) {
            ports@.lemma_index_of(key@);
        }
    }
    match ports.get(key) {
        Some(port) => Ok(port),
        None => Err(Error::not_found(key, place)),
    }
}

/// Looks `key` up among `ports`, which are those of the namespace `place`,
/// and hands the port out for the caller to change in place.
fn find_port_mut<'a>(ports: &'a mut Table<Port>, key: &str, place: Place) -> (r: Result<
    &'a mut Port,
    Error,
>)
    requires
        old(ports).wf(),
    ensures
        final(ports).wf(),
        port_views(old(ports)@).has(key@) <==> r is Ok,
        match r {
            Ok(port) => {
                &&& port@ == port_views(old(ports)@).at(key@)
                &&& port_views(final(ports)@) == port_views(old(ports)@).updated(
                    port_views(old(ports)@).index_of(key@),
                    final(port)@,
                )
                &&& forall|cells: Seq<ValueView>|
                    ports_valid(port_views(old(ports)@), cells) && final(port)@.valid_in(cells)
                        ==> #[trigger] ports_valid(port_views(final(ports)@), cells)
            },
            Err(e) => {
                &&& e@ == (ErrorView::NotFound { key: key@, place })
                &&& final(ports)@ == old(ports)@
            },
        },
{
    proof {
        if ports@.has(key@) {
            ports@.lemma_index_of(key@);
            let i = ports@.index_of(key@);
            assert forall|p: Port| #[trigger]
                port_views(ports@.updated(i, p)) == port_views(ports@).updated(i, p@) by {
                assert(port_views(ports@.updated(i, p)).values =~= port_views(ports@).updated(
                    i,
                    p@,
                ).values);
            }
            assert forall|cells: Seq<ValueView>, p: PortView|
                ports_valid(port_views(ports@), cells) && p.valid_in(cells) implies #[trigger]
                ports_valid(port_views(ports@).updated(i, p), cells) by {
                lemma_ports_valid_updated(port_views(ports@), cells, i, p);
            }
        }
    }
    match ports.get_mut(key) {
        Some(port) => Ok(port),
        None => Err(Error::not_found(key, place)),
    }
}

/// Removes `key` from `ports`.
fn drop_port(ports: &mut Table<Port>, key: &str)
    requires
        old(ports).wf(),
    ensures
        final(ports).wf(),
        port_views(final(ports)@) == port_views(old(ports)@).removed(key@),
        forall|cells: Seq<ValueView>|
            ports_valid(port_views(old(ports)@), cells) ==> #[trigger] ports_valid(
                port_views(final(ports)@),
                cells,
            ),
{
    proof {
        ports@.lemma_mapped_removed(|p: Port| p@, key@);
        assert forall|cells: Seq<ValueView>|
            ports_valid(port_views(ports@), cells) implies #[trigger] ports_valid(
            port_views(ports@).removed(key@),
            cells,
        ) by {
            lemma_ports_valid_removed(port_views(ports@), cells, key@);
        }
    }
    let _ = ports.remove(key);
}

/// Makes the port `from` of `mine` refer to the cell of `target`, which was
/// found under `to` in the namespace `to_place` of another unit.
fn alias_port(
    mine: &mut Table<Port>,
    from: &str,
    from_place: Place,
    theirs: Ghost<Entries<PortView>>,
    target: Result<&Port, Error>,
    to: &str,
    to_place: Place,
) -> (r: Result<(), Error>)
    requires
        old(mine).wf(),
        match found(theirs@, to@, to_place) {
            Ok(x) => target is Ok && target->Ok_0@ == x,
            Err(e) => target is Err && target->Err_0@ == e,
        },
    ensures
        final(mine).wf(),
        match aliasing(port_views(old(mine)@), from@, from_place, theirs@, to@, to_place) {
            Ok(ports) => r is Ok && port_views(final(mine)@) == ports,
            Err(e) => r is Err && r->Err_0@ == e && final(mine)@ == old(mine)@,
        },
        forall|cells: Seq<ValueView>|
            ports_valid(port_views(old(mine)@), cells) && ports_valid(theirs@, cells)
                ==> #[trigger] ports_valid(port_views(final(mine)@), cells),
{
    proof {
        if mine@.has(from@) {
            mine@.lemma_index_of(from@);
        }
    }
    let ghost before = mine@;
    let ghost place = before.index_of(from@);
    let r = match mine.get_mut(from) {
        None => Err(Error::not_found(from, from_place)),
        Some(port) => {
            match target {
                Err(e) => Err(e),
                Ok(other) => port.entangle(other),
            }
        },
    };
    proof {
        if before.has(from@) {
            let now = mine@.values[place];
            assert(mine@ == before.updated(place, now));
            if r is Ok {
                assert(port_views(mine@).values =~= port_views(before).inserted(
                    from@,
                    before.at(from@)@.aliased(theirs@.at(to@)),
                ).values);
            } else {
                assert(mine@.values =~= before.values);
            }
        }
        assert forall|cells: Seq<ValueView>|
            ports_valid(port_views(before), cells) && ports_valid(
                theirs@,
                cells,
            ) implies #[trigger] ports_valid(port_views(mine@), cells) by {
            if r is Ok {
                lemma_ports_valid_aliasing(
                    port_views(before),
                    from@,
                    from_place,
                    theirs@,
                    to@,
                    to_place,
                    cells,
                );
            }
        }
    }
    r
}

/// Whether every port of `ports` is valid in `store`. Code that Verus does
/// not check can ask this before it reads or writes through the ports.
pub fn all_valid(ports: &Table<Port>, store: &Store) -> (b: bool)
    requires
        ports.wf(),
    ensures
        b == ports_valid(port_views(ports@), store@),
{
    let n: usize = ports.len();
    let mut i: usize = 0;
    while i < n
        invariant
            ports.wf(),
            n == ports@.len(),
            i <= n,
            forall|j: int|
                0 <= j < i ==> (#[trigger] port_views(ports@).values[j]).valid_in(store@),
        decreases n - i,
    {
        if !ports.value_at(i).is_valid_in(store) {
            assert(!port_views(ports@).values[i as int].valid_in(store@));
            return false;
        }
        i = i + 1;
    }
    true
}

impl UnitStruct {
    /// A unit without ports.
    pub fn new() -> (u: UnitStruct)
        ensures
            u.inv(),
            u.ins() == Entries::<PortView>::empty(),
            u.outs() == Entries::<PortView>::empty(),
    {
        let u = UnitStruct { in_ports: Table::new(), out_ports: Table::new() };
        assert(u.ins().values =~= Seq::<PortView>::empty());
        assert(u.outs().values =~= Seq::<PortView>::empty());
        u
    }
}

impl Ports for UnitStruct {
    closed spec fn ins(&self) -> Entries<PortView> {
        port_views(self.in_ports@)
    }

    closed spec fn outs(&self) -> Entries<PortView> {
        port_views(self.out_ports@)
    }

    closed spec fn inv(&self) -> bool {
        self.in_ports.wf() && self.out_ports.wf()
    }

    open spec fn same_beside_ports(&self, before: &Self) -> bool {
        true
    }

    proof fn lemma_inv(&self) {
    }

    fn get_in_port(&self, key: &str) -> (r: Result<&Port, Error>) {
        find_port(&self.in_ports, key, Place::InPort)
    }

    fn get_in_ports(&self) -> (r: &Table<Port>) {
        &self.in_ports
    }

    fn get_out_port(&self, key: &str) -> (r: Result<&Port, Error>) {
        find_port(&self.out_ports, key, Place::OutPort)
    }

    fn get_out_ports(&self) -> (r: &Table<Port>) {
        &self.out_ports
    }
}

impl Unit for UnitStruct {
    fn make_in_port(&mut self, store: &mut Store, key: &str, dims: Dim4) {
        make_port(&mut self.in_ports, store, key, dims);
    }

    fn remove_in_port(&mut self, key: &str) {
        drop_port(&mut self.in_ports, key);
    }

    fn get_in_port_mut(&mut self, key: &str) -> (r: Result<&mut Port, Error>) {
        find_port_mut(&mut self.in_ports, key, Place::InPort)
    }

    fn alias_in_port<U: Ports>(
        &mut self,
        from: &str,
        other: &U,
        to: &str,
    ) -> (r: Result<(), Error>) {
        let target = other.get_in_port(to);
        alias_port(
            &mut self.in_ports,
            from,
            Place::InPort,
            Ghost(other.ins()),
            target,
            to,
            Place::InPort,
        )
    }

    fn make_out_port(&mut self, store: &mut Store, key: &str, dims: Dim4) {
        make_port(&mut self.out_ports, store, key, dims);
    }

    fn remove_out_port(&mut self, key: &str) {
        drop_port(&mut self.out_ports, key);
    }

    fn get_out_port_mut(&mut self, key: &str) -> (r: Result<&mut Port, Error>) {
        find_port_mut(&mut self.out_ports, key, Place::OutPort)
    }

    fn alias_out_port<U: Ports>(
        &mut self,
        from: &str,
        other: &U,
        to: &str,
    ) -> (r: Result<(), Error>) {
        let target = other.get_out_port(to);
        alias_port(
            &mut self.out_ports,
            from,
            Place::OutPort,
            Ghost(other.outs()),
            target,
            to,
            Place::OutPort,
        )
    }

    fn connect<U: Ports>(&mut self, from: &str, other: &U, to: &str) -> (r: Result<(), Error>) {
        let target = other.get_out_port(to);
        alias_port(
            &mut self.in_ports,
            from,
            Place::InPort,
            Ghost(other.outs()),
            target,
            to,
            Place::OutPort,
        )
    }
}

/// Wires the in-port `from_port` of `from_unit` to the out-port `to_port` of
/// `to_unit`.
pub fn connect<A: Unit, B: Ports>(
    from_unit: &mut A,
    from_port: &str,
    to_unit: &B,
    to_port: &str,
) -> (r: Result<(), Error>)
    requires
        old(from_unit).inv(),
        to_unit.inv(),
    ensures
        final(from_unit).inv(),
        final(from_unit).same_beside_ports(old(from_unit)),
        final(from_unit).outs() == old(from_unit).outs(),
        match aliasing(
            old(from_unit).ins(),
            from_port@,
            Place::InPort,
            to_unit.outs(),
            to_port@,
            Place::OutPort,
        ) {
            Ok(ports) => r is Ok && final(from_unit).ins() == ports,
            Err(e) => r is Err && r->Err_0@ == e && final(from_unit).ins() == old(from_unit).ins(),
        },
        forall|cells: Seq<ValueView>|
            ports_valid(old(from_unit).ins(), cells) && ports_valid(to_unit.outs(), cells)
                ==> #[trigger] ports_valid(final(from_unit).ins(), cells),
{
    from_unit.connect(from_port, to_unit, to_port)
}

} // verus!
