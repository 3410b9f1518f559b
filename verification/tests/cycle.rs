use arrayfire::Dim4;
use flowgraph::component::constant::Constant;
use flowgraph::component::node::Node;
use flowgraph::component::null::Null;
use flowgraph::component::pipe::Pipe;
use flowgraph::component::{Component, ComponentStruct};
use flowgraph::error::{Error, Place};
use flowgraph::port::Store;
use flowgraph::table::Table;
use flowgraph::unit::{Ports, Unit, UnitStruct};
use flowgraph::value::Value;

#[test]
fn ports_of_a_component_come_with_zero_staged_values() {
    let mut store = Store::new();
    let dims = Dim4::new(&[5, 3, 1, 1]);
    let mut c = ComponentStruct::new();
    assert!(c.get_input("in").unwrap_err().is_not_found());
    c.make_in_port(&mut store, "in", dims);
    c.make_out_port(&mut store, "out", dims);

    let staged_in = c.get_input("in").unwrap();
    let staged_out = c.get_output("out").unwrap();
    assert!(staged_in.is_zeros());
    assert!(staged_out.is_zeros());
    assert_eq!(staged_in.shape(), [5, 3, 1, 1]);
    assert_eq!(staged_out.shape(), [5, 3, 1, 1]);

    match c.get_input("out").unwrap_err() {
        Error::NotFound { key, place } => {
            assert_eq!(key, "out");
            assert_eq!(place, Place::Input);
        }
        _ => panic!("expected a missing name"),
    }
    match c.get_output("in").unwrap_err() {
        Error::NotFound { key, place } => {
            assert_eq!(key, "in");
            assert_eq!(place, Place::Output);
        }
        _ => panic!("expected a missing name"),
    }

    c.remove_in_port("in");
    c.remove_out_port("out");
    assert!(c.get_input("in").is_err());
    assert!(c.get_output("out").is_err());
    assert!(c.get_in_port("in").is_err());
    assert!(c.get_out_port("out").is_err());
}

#[test]
fn input_stages_what_every_in_port_reads() {
    let mut store = Store::new();
    let dims = Dim4::new(&[2, 2, 1, 1]);
    let mut c = ComponentStruct::new();
    c.make_in_port(&mut store, "a", dims);
    c.make_in_port(&mut store, "b", dims);
    c.get_in_port("a").unwrap().write(&mut store, Value::keyed(dims, 1)).unwrap();
    c.get_in_port("b").unwrap().write(&mut store, Value::keyed(dims, 2)).unwrap();

    assert!(c.get_input("a").unwrap().is_zeros());
    c.input(&store);
    assert_eq!(c.get_input("a").unwrap().key(), Some(1));
    assert_eq!(c.get_input("b").unwrap().key(), Some(2));

    c.get_in_port("a").unwrap().write(&mut store, Value::keyed(dims, 3)).unwrap();
    assert_eq!(c.get_input("a").unwrap().key(), Some(1));
    c.input(&store);
    assert_eq!(c.get_input("a").unwrap().key(), Some(3));
    assert_eq!(c.get_input("b").unwrap().key(), Some(2));
}

#[test]
fn output_twice_writes_the_same_values() {
    let mut store = Store::new();
    let dims = Dim4::new(&[5, 3, 1, 1]);
    let mut c = Constant::new(Value::keyed(dims, 7));
    c.make_out_port(&mut store, "out", dims);
    c.fire().unwrap();

    c.output(&mut store).unwrap();
    let first = store.clone();
    let staged = c.get_output("out").unwrap();
    c.output(&mut store).unwrap();

    let port = *c.get_out_port("out").unwrap();
    assert_eq!(port.read(&first).key(), Some(7));
    assert_eq!(port.read(&store).key(), Some(7));
    assert_eq!(store.len(), first.len());
    assert_eq!(c.get_output("out").unwrap().key(), staged.key());
}

#[test]
fn a_constant_keeps_publishing_its_value() {
    let mut store = Store::new();
    let dims = Dim4::new(&[5, 3, 1, 1]);
    let mut c = Constant::new(Value::keyed(dims, 7));
    c.make_out_port(&mut store, "out", dims);
    let port = *c.get_out_port("out").unwrap();
    assert!(port.read(&store).is_zeros());

    for _ in 0..3 {
        c.input(&store);
        c.fire().unwrap();
        c.output(&mut store).unwrap();
        assert_eq!(port.read(&store).key(), Some(7));
    }

    port.write(&mut store, Value::keyed(dims, 1)).unwrap();
    c.input(&store);
    c.fire().unwrap();
    c.output(&mut store).unwrap();
    assert_eq!(port.read(&store).key(), Some(7));
    assert_eq!(c.get_output("out").unwrap().key(), Some(7));
}

#[test]
fn a_pipe_without_its_input_fails_to_fire() {
    let mut store = Store::new();
    let dims = Dim4::new(&[5, 3, 1, 1]);
    let mut c = Pipe::new(("in", "out"));
    c.make_out_port(&mut store, "out", dims);

    match c.fire().unwrap_err() {
        Error::NotFound { key, place } => {
            assert_eq!(key, "in");
            assert_eq!(place, Place::Input);
        }
        _ => panic!("expected a missing name"),
    }
    assert!(c.get_output("out").unwrap().is_zeros());
    c.output(&mut store).unwrap();
    assert!(c.get_out_port("out").unwrap().read(&store).is_zeros());
}

#[test]
fn firing_before_input_uses_what_was_staged_before() {
    let mut store = Store::new();
    let dims = Dim4::new(&[5, 3, 1, 1]);
    let mut c = Pipe::new(("in", "out"));
    c.make_in_port(&mut store, "in", dims);
    c.make_out_port(&mut store, "out", dims);
    c.get_in_port("in").unwrap().write(&mut store, Value::keyed(dims, 1)).unwrap();

    c.fire().unwrap();
    c.output(&mut store).unwrap();
    assert!(c.get_out_port("out").unwrap().read(&store).is_zeros());

    c.input(&store);
    c.fire().unwrap();
    c.output(&mut store).unwrap();
    assert_eq!(c.get_out_port("out").unwrap().read(&store).key(), Some(1));
}

#[test]
fn a_pipe_keeps_the_staged_outputs_of_its_other_out_ports() {
    let mut store = Store::new();
    let dims = Dim4::new(&[5, 3, 1, 1]);
    let mut c = Pipe::new(("in", "out"));
    c.make_in_port(&mut store, "in", dims);
    c.make_out_port(&mut store, "out", dims);
    c.make_out_port(&mut store, "aux", dims);
    c.get_in_port("in").unwrap().write(&mut store, Value::keyed(dims, 1)).unwrap();

    c.input(&store);
    c.fire().unwrap();
    assert_eq!(c.get_output("out").unwrap().key(), Some(1));
    assert!(c.get_output("aux").unwrap().is_zeros());
    assert_eq!(c.get_output("aux").unwrap().shape(), [5, 3, 1, 1]);

    c.output(&mut store).unwrap();
    assert_eq!(c.get_out_port("out").unwrap().read(&store).key(), Some(1));
    assert!(c.get_out_port("aux").unwrap().read(&store).is_zeros());
}

#[test]
fn a_pipe_stages_its_output_even_without_an_out_port_of_that_name() {
    let mut store = Store::new();
    let dims = Dim4::new(&[5, 3, 1, 1]);
    let mut c = Pipe::new(("in", "elsewhere"));
    c.make_in_port(&mut store, "in", dims);
    c.make_out_port(&mut store, "out", dims);
    c.get_in_port("in").unwrap().write(&mut store, Value::keyed(dims, 1)).unwrap();

    c.input(&store);
    c.fire().unwrap();
    assert_eq!(c.get_output("elsewhere").unwrap().key(), Some(1));
    assert!(c.get_output("out").unwrap().is_zeros());
    c.output(&mut store).unwrap();
    assert!(c.get_out_port("out").unwrap().read(&store).is_zeros());
}

#[test]
fn a_constant_keeps_the_staged_outputs_of_its_other_out_ports() {
    let mut store = Store::new();
    let dims = Dim4::new(&[5, 3, 1, 1]);
    let wide = Dim4::new(&[9, 1, 1, 1]);
    let mut c = Constant::new(Value::keyed(dims, 7));
    c.make_out_port(&mut store, "out", dims);
    c.make_out_port(&mut store, "other", wide);

    c.fire().unwrap();
    assert_eq!(c.get_output("out").unwrap().key(), Some(7));
    assert!(c.get_output("other").unwrap().is_zeros());
    assert_eq!(c.get_output("other").unwrap().shape(), [9, 1, 1, 1]);

    c.output(&mut store).unwrap();
    assert_eq!(c.get_out_port("out").unwrap().read(&store).key(), Some(7));
    assert!(c.get_out_port("other").unwrap().read(&store).is_zeros());
}

#[test]
fn output_without_a_staged_value_fails_and_writes_nothing() {
    let mut store = Store::new();
    let dims = Dim4::new(&[5, 3, 1, 1]);
    let mut c = ComponentStruct::new();
    c.make_out_port(&mut store, "out", dims);
    c.make_out_port(&mut store, "other", dims);

    let mut staged: Table<Value> = Table::new();
    staged.insert("out".to_string(), Value::keyed(dims, 7));
    c.stage_outputs(staged);

    let err = c.output(&mut store).unwrap_err();
    assert!(err.is_incomplete_result());
    match err {
        Error::IncompleteResult { key } => assert_eq!(key, "other"),
        _ => panic!("expected an incomplete result"),
    }
    assert!(c.get_out_port("out").unwrap().read(&store).is_zeros());
    assert!(c.get_out_port("other").unwrap().read(&store).is_zeros());

    c.stage_output("other".to_string(), Value::keyed(dims, 8));
    c.output(&mut store).unwrap();
    assert_eq!(c.get_out_port("out").unwrap().read(&store).key(), Some(7));
    assert_eq!(c.get_out_port("other").unwrap().read(&store).key(), Some(8));
}

#[test]
fn output_of_another_shape_fails_and_writes_nothing() {
    let mut store = Store::new();
    let dims = Dim4::new(&[5, 3, 1, 1]);
    let other = Dim4::new(&[3, 5, 1, 1]);
    let mut c = Constant::new(Value::keyed(other, 7));
    c.make_out_port(&mut store, "out", dims);
    c.fire().unwrap();

    match c.output(&mut store).unwrap_err() {
        Error::ShapeMismatch { expected, actual } => {
            assert_eq!(expected, dims);
            assert_eq!(actual, other);
        }
        _ => panic!("expected a shape mismatch"),
    }
    assert!(c.get_out_port("out").unwrap().read(&store).is_zeros());
}

#[test]
fn a_missing_output_is_reported_before_a_shape_that_differs() {
    let mut store = Store::new();
    let dims = Dim4::new(&[5, 3, 1, 1]);
    let other = Dim4::new(&[3, 5, 1, 1]);
    let mut c = ComponentStruct::new();
    c.make_out_port(&mut store, "a", dims);
    c.make_out_port(&mut store, "b", dims);
    c.make_out_port(&mut store, "c", dims);

    let mut staged: Table<Value> = Table::new();
    staged.insert("a".to_string(), Value::keyed(dims, 1));
    staged.insert("b".to_string(), Value::keyed(other, 2));
    c.stage_outputs(staged);
    match c.output(&mut store).unwrap_err() {
        Error::IncompleteResult { key } => assert_eq!(key, "c"),
        _ => panic!("expected an incomplete result"),
    }
    assert!(c.get_out_port("a").unwrap().read(&store).is_zeros());

    let mut staged: Table<Value> = Table::new();
    staged.insert("c".to_string(), Value::keyed(other, 3));
    staged.insert("a".to_string(), Value::keyed(other, 1));
    c.stage_outputs(staged);
    match c.output(&mut store).unwrap_err() {
        Error::IncompleteResult { key } => assert_eq!(key, "b"),
        _ => panic!("expected an incomplete result"),
    }
    assert!(c.get_out_port("a").unwrap().read(&store).is_zeros());

    let mut staged: Table<Value> = Table::new();
    staged.insert("c".to_string(), Value::keyed(other, 3));
    staged.insert("b".to_string(), Value::keyed(other, 2));
    staged.insert("a".to_string(), Value::keyed(dims, 1));
    c.stage_outputs(staged);
    let err = c.output(&mut store).unwrap_err();
    assert!(err.is_shape_mismatch());
    match err {
        Error::ShapeMismatch { expected, actual } => {
            assert_eq!(expected, dims);
            assert_eq!(actual, other);
        }
        _ => panic!("expected a shape mismatch"),
    }
    assert!(c.get_out_port("a").unwrap().read(&store).is_zeros());

    let mut staged: Table<Value> = Table::new();
    staged.insert("c".to_string(), Value::keyed(dims, 3));
    staged.insert("b".to_string(), Value::keyed(dims, 2));
    staged.insert("a".to_string(), Value::keyed(dims, 1));
    staged.insert("unused".to_string(), Value::keyed(other, 9));
    c.stage_outputs(staged);
    c.output(&mut store).unwrap();
    assert_eq!(c.get_out_port("a").unwrap().read(&store).key(), Some(1));
    assert_eq!(c.get_out_port("b").unwrap().read(&store).key(), Some(2));
    assert_eq!(c.get_out_port("c").unwrap().read(&store).key(), Some(3));
}

#[test]
fn a_pipe_between_two_shapes_reports_the_shape_and_not_a_missing_output() {
    let mut store = Store::new();
    let narrow = Dim4::new(&[5, 3, 1, 1]);
    let wide = Dim4::new(&[3, 5, 1, 1]);
    let mut c = Pipe::new(("in", "out"));
    c.make_in_port(&mut store, "in", narrow);
    c.make_out_port(&mut store, "out", wide);
    c.make_out_port(&mut store, "aux", wide);

    c.input(&store);
    c.fire().unwrap();
    match c.output(&mut store).unwrap_err() {
        Error::ShapeMismatch { expected, actual } => {
            assert_eq!(expected, wide);
            assert_eq!(actual, narrow);
        }
        _ => panic!("expected a shape mismatch"),
    }
    assert!(c.get_out_port("out").unwrap().read(&store).is_zeros());
    assert!(c.get_out_port("aux").unwrap().read(&store).is_zeros());
}

#[test]
fn out_ports_that_share_a_cell_publish_in_order_of_registration() {
    let mut store = Store::new();
    let dims = Dim4::new(&[5, 3, 1, 1]);
    let mut target = UnitStruct::new();
    target.make_out_port(&mut store, "t", dims);

    let mut c = ComponentStruct::new();
    c.make_out_port(&mut store, "a", dims);
    c.make_out_port(&mut store, "b", dims);
    c.alias_out_port("a", &target, "t").unwrap();
    c.alias_out_port("b", &target, "t").unwrap();

    let mut staged: Table<Value> = Table::new();
    staged.insert("b".to_string(), Value::keyed(dims, 2));
    staged.insert("a".to_string(), Value::keyed(dims, 1));
    c.stage_outputs(staged);
    c.output(&mut store).unwrap();
    assert_eq!(target.get_out_port("t").unwrap().read(&store).key(), Some(2));
    assert_eq!(c.get_out_port("a").unwrap().read(&store).key(), Some(2));
}

#[test]
fn a_sink_changes_nothing() {
    let mut store = Store::new();
    let dims = Dim4::new(&[5, 3, 1, 1]);
    let mut c = Null::new();
    c.make_in_port(&mut store, "in", dims);
    c.get_in_port("in").unwrap().write(&mut store, Value::keyed(dims, 1)).unwrap();
    c.input(&store);
    c.fire().unwrap();
    c.output(&mut store).unwrap();
    assert_eq!(c.get_input("in").unwrap().key(), Some(1));
    assert_eq!(c.get_in_port("in").unwrap().read(&store).key(), Some(1));
    assert_eq!(store.len(), 1);
}

#[test]
fn a_node_behaves_as_the_component_it_holds() {
    let mut store = Store::new();
    let dims = Dim4::new(&[5, 3, 1, 1]);
    let mut source = Node::Constant(Constant::new(Value::keyed(dims, 7)));
    let mut relay = Node::Pipe(Pipe::new(("in", "out")));
    let mut sink = Node::Null(Null::new());
    source.make_out_port(&mut store, "out", dims);
    relay.make_in_port(&mut store, "in", dims);
    relay.make_out_port(&mut store, "out", dims);
    sink.make_in_port(&mut store, "in", dims);
    relay.connect("in", &source, "out").unwrap();
    sink.connect("in", &relay, "out").unwrap();

    for _ in 0..2 {
        source.input(&store);
        relay.input(&store);
        sink.input(&store);
        source.fire().unwrap();
        relay.fire().unwrap();
        sink.fire().unwrap();
        source.output(&mut store).unwrap();
        relay.output(&mut store).unwrap();
        sink.output(&mut store).unwrap();
    }
    assert_eq!(sink.get_in_port("in").unwrap().read(&store).key(), Some(7));
    assert!(sink.get_input("in").unwrap().is_zeros());
    assert_eq!(relay.get_input("in").unwrap().key(), Some(7));
    assert!(relay.get_output("other").unwrap_err().is_not_found());
    relay.remove_in_port("in");
    assert!(relay.fire().unwrap_err().is_not_found());
}
