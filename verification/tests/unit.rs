use arrayfire::Dim4;
use flowgraph::error::{Error, Place};
use flowgraph::port::{Port, Store};
use flowgraph::unit::{all_valid, connect, Ports, Unit, UnitStruct};
use flowgraph::value::Value;

#[test]
fn a_made_port_is_found_with_its_shape() {
    let mut store = Store::new();
    let mut u = UnitStruct::new();
    let dims = Dim4::new(&[5, 3, 1, 1]);
    u.make_in_port(&mut store, "x", dims);

    let port = u.get_in_port("x").unwrap();
    assert_eq!(port.shape(), [5, 3, 1, 1]);
    assert!(port.read(&store).is_zeros());
    assert_eq!(port.read(&store).shape(), [5, 3, 1, 1]);

    let err = u.get_in_port("y").unwrap_err();
    assert!(err.is_not_found());
    match err {
        Error::NotFound { key, place } => {
            assert_eq!(key, "y");
            assert_eq!(place, Place::InPort);
        }
        _ => panic!("expected a missing name"),
    }
}

#[test]
fn a_new_unit_has_no_ports() {
    let u = UnitStruct::new();
    assert_eq!(u.get_in_ports().len(), 0);
    assert_eq!(u.get_out_ports().len(), 0);
    assert!(u.get_in_port("in").unwrap_err().is_not_found());
    assert!(u.get_out_port("out").unwrap_err().is_not_found());
}

#[test]
fn the_two_namespaces_are_independent() {
    let mut store = Store::new();
    let mut u = UnitStruct::new();
    let narrow = Dim4::new(&[2, 1, 1, 1]);
    let wide = Dim4::new(&[9, 1, 1, 1]);
    u.make_in_port(&mut store, "x", narrow);
    u.make_out_port(&mut store, "x", wide);

    let a = *u.get_in_port("x").unwrap();
    let b = *u.get_out_port("x").unwrap();
    assert_eq!(a.shape(), [2, 1, 1, 1]);
    assert_eq!(b.shape(), [9, 1, 1, 1]);
    assert!(!a.shares_cell_with(&b));

    match u.get_out_port("y").unwrap_err() {
        Error::NotFound { key, place } => {
            assert_eq!(key, "y");
            assert_eq!(place, Place::OutPort);
        }
        _ => panic!("expected a missing name"),
    }

    u.remove_in_port("x");
    assert!(u.get_in_port("x").is_err());
    assert!(u.get_out_port("x").is_ok());
}

#[test]
fn making_a_port_again_replaces_it() {
    let mut store = Store::new();
    let mut u = UnitStruct::new();
    let first = Dim4::new(&[2, 1, 1, 1]);
    let second = Dim4::new(&[3, 1, 1, 1]);
    u.make_in_port(&mut store, "x", first);
    let old = *u.get_in_port("x").unwrap();
    old.write(&mut store, Value::keyed(first, 1)).unwrap();

    u.make_in_port(&mut store, "x", second);
    let new = *u.get_in_port("x").unwrap();
    assert_eq!(u.get_in_ports().len(), 1);
    assert_eq!(new.shape(), [3, 1, 1, 1]);
    assert!(!new.shares_cell_with(&old));
    assert!(new.read(&store).is_zeros());
    assert_eq!(old.read(&store).key(), Some(1));
}

#[test]
fn removing_a_port_that_is_absent_changes_nothing() {
    let mut store = Store::new();
    let mut u = UnitStruct::new();
    let dims = Dim4::new(&[2, 1, 1, 1]);
    u.make_in_port(&mut store, "x", dims);
    u.make_out_port(&mut store, "y", dims);
    u.remove_in_port("y");
    u.remove_out_port("x");
    assert_eq!(u.get_in_ports().len(), 1);
    assert_eq!(u.get_out_ports().len(), 1);
    u.remove_out_port("y");
    assert_eq!(u.get_out_ports().len(), 0);
    assert!(u.get_out_port("y").unwrap_err().is_not_found());
}

#[test]
fn connect_makes_the_in_port_see_the_out_port() {
    let mut store = Store::new();
    let dims = Dim4::new(&[5, 3, 1, 1]);
    let mut source = UnitStruct::new();
    let mut sink = UnitStruct::new();
    source.make_out_port(&mut store, "out", dims);
    sink.make_in_port(&mut store, "in", dims);

    connect(&mut sink, "in", &source, "out").unwrap();

    let from = *source.get_out_port("out").unwrap();
    let to = *sink.get_in_port("in").unwrap();
    assert!(to.shares_cell_with(&from));
    from.write(&mut store, Value::keyed(dims, 3)).unwrap();
    assert_eq!(to.read(&store).key(), Some(3));
    to.write(&mut store, Value::keyed(dims, 4)).unwrap();
    assert_eq!(from.read(&store).key(), Some(4));
    assert!(all_valid(sink.get_in_ports(), &store));
    assert!(all_valid(source.get_out_ports(), &store));
}

#[test]
fn one_out_port_fans_out_to_many_in_ports() {
    let mut store = Store::new();
    let dims = Dim4::new(&[5, 3, 1, 1]);
    let mut source = UnitStruct::new();
    let mut a = UnitStruct::new();
    let mut b = UnitStruct::new();
    source.make_out_port(&mut store, "out", dims);
    a.make_in_port(&mut store, "in", dims);
    b.make_in_port(&mut store, "in", dims);
    a.connect("in", &source, "out").unwrap();
    b.connect("in", &source, "out").unwrap();

    source.get_out_port("out").unwrap().write(&mut store, Value::keyed(dims, 8)).unwrap();
    assert_eq!(a.get_in_port("in").unwrap().read(&store).key(), Some(8));
    assert_eq!(b.get_in_port("in").unwrap().read(&store).key(), Some(8));
}

#[test]
fn connect_names_the_port_that_is_missing() {
    let mut store = Store::new();
    let dims = Dim4::new(&[5, 3, 1, 1]);
    let mut source = UnitStruct::new();
    let mut sink = UnitStruct::new();
    source.make_out_port(&mut store, "out", dims);
    sink.make_in_port(&mut store, "in", dims);
    let before = *sink.get_in_port("in").unwrap();

    match connect(&mut sink, "nowhere", &source, "out").unwrap_err() {
        Error::NotFound { key, place } => {
            assert_eq!(key, "nowhere");
            assert_eq!(place, Place::InPort);
        }
        _ => panic!("expected a missing name"),
    }
    match connect(&mut sink, "in", &source, "nothing").unwrap_err() {
        Error::NotFound { key, place } => {
            assert_eq!(key, "nothing");
            assert_eq!(place, Place::OutPort);
        }
        _ => panic!("expected a missing name"),
    }
    match connect(&mut sink, "nowhere", &source, "nothing").unwrap_err() {
        Error::NotFound { key, place } => {
            assert_eq!(key, "nowhere");
            assert_eq!(place, Place::InPort);
        }
        _ => panic!("expected a missing name"),
    }
    assert!(sink.get_in_port("in").unwrap().shares_cell_with(&before));
}

#[test]
fn connect_of_two_shapes_fails_and_changes_nothing() {
    let mut store = Store::new();
    let small = Dim4::new(&[5, 3, 1, 1]);
    let large = Dim4::new(&[5, 3, 1, 2]);
    let mut source = UnitStruct::new();
    let mut sink = UnitStruct::new();
    source.make_out_port(&mut store, "out", large);
    sink.make_in_port(&mut store, "in", small);
    let before = *sink.get_in_port("in").unwrap();

    match connect(&mut sink, "in", &source, "out").unwrap_err() {
        Error::ShapeMismatch { expected, actual } => {
            assert_eq!(expected, small);
            assert_eq!(actual, large);
        }
        _ => panic!("expected a shape mismatch"),
    }
    let after = *sink.get_in_port("in").unwrap();
    assert!(after.shares_cell_with(&before));
    assert_eq!(after.shape(), [5, 3, 1, 1]);
    assert!(!after.shares_cell_with(source.get_out_port("out").unwrap()));
}

#[test]
fn alias_in_port_and_alias_out_port_stay_in_their_namespace() {
    let mut store = Store::new();
    let dims = Dim4::new(&[4, 1, 1, 1]);
    let mut inner = UnitStruct::new();
    let mut outer = UnitStruct::new();
    inner.make_in_port(&mut store, "x", dims);
    inner.make_out_port(&mut store, "y", dims);
    outer.make_in_port(&mut store, "x", dims);
    outer.make_out_port(&mut store, "y", dims);

    outer.alias_in_port("x", &inner, "x").unwrap();
    outer.alias_out_port("y", &inner, "y").unwrap();
    assert!(outer.get_in_port("x").unwrap().shares_cell_with(inner.get_in_port("x").unwrap()));
    assert!(outer.get_out_port("y").unwrap().shares_cell_with(inner.get_out_port("y").unwrap()));

    match outer.alias_in_port("x", &inner, "y").unwrap_err() {
        Error::NotFound { key, place } => {
            assert_eq!(key, "y");
            assert_eq!(place, Place::InPort);
        }
        _ => panic!("expected a missing name"),
    }
    match outer.alias_out_port("x", &inner, "y").unwrap_err() {
        Error::NotFound { key, place } => {
            assert_eq!(key, "x");
            assert_eq!(place, Place::OutPort);
        }
        _ => panic!("expected a missing name"),
    }
}

#[test]
fn ports_of_another_store_are_not_valid() {
    let mut store = Store::new();
    let empty = Store::new();
    let dims = Dim4::new(&[4, 1, 1, 1]);
    let mut u = UnitStruct::new();
    assert!(all_valid(u.get_in_ports(), &empty));
    u.make_in_port(&mut store, "x", dims);
    assert!(all_valid(u.get_in_ports(), &store));
    assert!(!all_valid(u.get_in_ports(), &empty));
}

#[test]
fn a_missing_name_is_told_with_its_namespace() {
    let u = UnitStruct::new();
    assert_eq!(u.get_in_port("y").unwrap_err().message(), "In port `y` does not exist");
    assert_eq!(u.get_out_port("y").unwrap_err().message(), "Out port `y` does not exist");
    assert_eq!(Error::not_found("c1", Place::Component).message(), "Component `c1` does not exist");
    assert_eq!(Error::not_found("m1", Place::Submodule).message(), "Submodule `m1` does not exist");
    assert_eq!(Error::not_found("in", Place::Input).message(), "Input `in` does not exist");
    assert_eq!(Error::not_found("out", Place::Output).message(), "Output `out` does not exist");
    assert_eq!(Error::incomplete("out").message(), "Output for key out does not exist");
    assert_eq!(Place::InPort.label(), "In port");
}

#[test]
fn errors_are_made_as_they_are_told_apart() {
    let dims = Dim4::new(&[1, 2, 3, 4]);
    let other = Dim4::new(&[4, 3, 2, 1]);
    assert!(Error::not_found("x", Place::InPort).is_not_found());
    assert!(Error::incomplete("x").is_incomplete_result());
    let e = Error::shape_mismatch(dims, other);
    assert!(e.is_shape_mismatch());
    assert!(!e.is_not_found());
    assert_eq!(e.message(), "Mismatched port dimensions (expected: [1 2 3 4] actual: [4 3 2 1])");
}

#[test]
fn a_registered_port_can_be_entangled_with_a_port_outside_any_unit() {
    let mut store = Store::new();
    let dims = Dim4::new(&[5, 3, 1, 1]);
    let mut u = UnitStruct::new();
    u.make_in_port(&mut store, "x", dims);
    u.make_out_port(&mut store, "y", dims);
    let free = Port::new(&mut store, dims);

    u.get_in_port_mut("x").unwrap().entangle(&free).unwrap();
    u.get_out_port_mut("y").unwrap().entangle(&free).unwrap();
    assert!(u.get_in_port("x").unwrap().shares_cell_with(&free));
    assert!(u.get_out_port("y").unwrap().shares_cell_with(&free));
    assert_eq!(u.get_in_ports().len(), 1);
    assert_eq!(u.get_out_ports().len(), 1);

    free.write(&mut store, Value::keyed(dims, 6)).unwrap();
    assert_eq!(u.get_in_port("x").unwrap().read(&store).key(), Some(6));
    assert_eq!(u.get_out_port("y").unwrap().read(&store).key(), Some(6));
    assert!(all_valid(u.get_in_ports(), &store));
}

#[test]
fn a_port_handed_out_for_change_keeps_its_place_when_entangling_fails() {
    let mut store = Store::new();
    let dims = Dim4::new(&[5, 3, 1, 1]);
    let wide = Dim4::new(&[3, 5, 1, 1]);
    let mut u = UnitStruct::new();
    u.make_in_port(&mut store, "x", dims);
    let before = *u.get_in_port("x").unwrap();
    let free = Port::new(&mut store, wide);

    assert!(u.get_in_port_mut("x").unwrap().entangle(&free).unwrap_err().is_shape_mismatch());
    assert!(u.get_in_port("x").unwrap().shares_cell_with(&before));

    match u.get_in_port_mut("y").unwrap_err() {
        Error::NotFound { key, place } => {
            assert_eq!(key, "y");
            assert_eq!(place, Place::InPort);
        }
        _ => panic!("expected a missing name"),
    }
    match u.get_out_port_mut("x").unwrap_err() {
        Error::NotFound { key, place } => {
            assert_eq!(key, "x");
            assert_eq!(place, Place::OutPort);
        }
        _ => panic!("expected a missing name"),
    }
}
