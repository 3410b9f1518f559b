use arrayfire::Dim4;
use flowgraph::component::constant::Constant;
use flowgraph::component::node::Node;
use flowgraph::component::null::Null;
use flowgraph::component::pipe::Pipe;
use flowgraph::component::Component;
use flowgraph::module::Module;
use flowgraph::port::Store;
use flowgraph::unit::{connect, Ports, Unit};
use flowgraph::value::Value;

/// The arrays that the values of a test stand for, found again by key.
struct Bank {
    arrays: Vec<Vec<f64>>,
}

impl Bank {
    fn new() -> Bank {
        Bank { arrays: Vec::new() }
    }

    fn constant(&mut self, element: f64, dims: Dim4) -> Value {
        let count = dims.get().iter().product::<u64>() as usize;
        self.arrays.push(vec![element; count]);
        Value::keyed(dims, (self.arrays.len() - 1) as u64)
    }

    fn sum_all(&self, value: &Value) -> f64 {
        match value.key() {
            None => 0.0,
            Some(key) => self.arrays[key as usize].iter().sum(),
        }
    }
}

#[test]
fn module_works() {
    let mut store = Store::new();
    let mut bank = Bank::new();

    let n_rows: u64 = 5;
    let n_cols: u64 = 3;

    let dims = Dim4::new(&[n_rows, n_cols, 1, 1]);
    let ones = bank.constant(1.0, dims);

    let mut c0 = Constant::new(ones);
    let mut c1 = Pipe::new(("in", "out"));
    let mut c2 = Null::new();

    c0.make_out_port(&mut store, "out", dims);
    c1.make_in_port(&mut store, "in", dims);
    c1.make_out_port(&mut store, "out", dims);
    c2.make_in_port(&mut store, "in", dims);

    connect(&mut c1, "in", &c0, "out").unwrap();
    connect(&mut c2, "in", &c1, "out").unwrap();

    let mut m0 = Module::new();

    m0.add_component("c0", Node::Constant(c0));
    m0.add_component("c1", Node::Pipe(c1));
    m0.add_component("c2", Node::Null(c2));

    let a0 = m0.get_component("c0").unwrap().get_out_port("out").unwrap().read(&store);
    let a1 = m0.get_component("c1").unwrap().get_in_port("in").unwrap().read(&store);
    let a2 = m0.get_component("c1").unwrap().get_out_port("out").unwrap().read(&store);
    let a3 = m0.get_component("c2").unwrap().get_in_port("in").unwrap().read(&store);
    let r0 = bank.sum_all(&a0);
    let r1 = bank.sum_all(&a1);
    let r2 = bank.sum_all(&a2);
    let r3 = bank.sum_all(&a3);
    assert_eq!(r0, 0.0);
    assert_eq!(r1, 0.0);
    assert_eq!(r2, 0.0);
    assert_eq!(r3, 0.0);

    let a0 = m0.get_component("c0").unwrap().get_output("out").unwrap();
    let a1 = m0.get_component("c1").unwrap().get_input("in").unwrap();
    let a2 = m0.get_component("c1").unwrap().get_output("out").unwrap();
    let a3 = m0.get_component("c2").unwrap().get_input("in").unwrap();
    let r0 = bank.sum_all(&a0);
    let r1 = bank.sum_all(&a1);
    let r2 = bank.sum_all(&a2);
    let r3 = bank.sum_all(&a3);
    assert_eq!(r0, 0.0);
    assert_eq!(r1, 0.0);
    assert_eq!(r2, 0.0);
    assert_eq!(r3, 0.0);

    m0.get_component("c0").unwrap().input(&store);
    m0.get_component("c1").unwrap().input(&store);
    m0.get_component("c2").unwrap().input(&store);
    m0.get_component("c0").unwrap().fire().unwrap();
    m0.get_component("c1").unwrap().fire().unwrap();
    m0.get_component("c2").unwrap().fire().unwrap();
    m0.get_component("c0").unwrap().output(&mut store).unwrap();
    m0.get_component("c1").unwrap().output(&mut store).unwrap();
    m0.get_component("c2").unwrap().output(&mut store).unwrap();

    let a0 = m0.get_component("c0").unwrap().get_out_port("out").unwrap().read(&store);
    let a1 = m0.get_component("c1").unwrap().get_in_port("in").unwrap().read(&store);
    let a2 = m0.get_component("c1").unwrap().get_out_port("out").unwrap().read(&store);
    let a3 = m0.get_component("c2").unwrap().get_in_port("in").unwrap().read(&store);
    let r0 = bank.sum_all(&a0);
    let r1 = bank.sum_all(&a1);
    let r2 = bank.sum_all(&a2);
    let r3 = bank.sum_all(&a3);
    assert_eq!(r0, 15.0);
    assert_eq!(r1, 15.0);
    assert_eq!(r2, 0.0);
    assert_eq!(r3, 0.0);

    let a0 = m0.get_component("c0").unwrap().get_output("out").unwrap();
    let a1 = m0.get_component("c1").unwrap().get_input("in").unwrap();
    let a2 = m0.get_component("c1").unwrap().get_output("out").unwrap();
    let a3 = m0.get_component("c2").unwrap().get_input("in").unwrap();
    let r0 = bank.sum_all(&a0);
    let r1 = bank.sum_all(&a1);
    let r2 = bank.sum_all(&a2);
    let r3 = bank.sum_all(&a3);
    assert_eq!(r0, 15.0);
    assert_eq!(r1, 0.0);
    assert_eq!(r2, 0.0);
    assert_eq!(r3, 0.0);

    m0.get_component("c0").unwrap().input(&store);
    m0.get_component("c1").unwrap().input(&store);
    m0.get_component("c2").unwrap().input(&store);
    m0.get_component("c0").unwrap().fire().unwrap();
    m0.get_component("c1").unwrap().fire().unwrap();
    m0.get_component("c2").unwrap().fire().unwrap();
    m0.get_component("c0").unwrap().output(&mut store).unwrap();
    m0.get_component("c1").unwrap().output(&mut store).unwrap();
    m0.get_component("c2").unwrap().output(&mut store).unwrap();

    let a0 = m0.get_component("c0").unwrap().get_out_port("out").unwrap().read(&store);
    let a1 = m0.get_component("c1").unwrap().get_in_port("in").unwrap().read(&store);
    let a2 = m0.get_component("c1").unwrap().get_out_port("out").unwrap().read(&store);
    let a3 = m0.get_component("c2").unwrap().get_in_port("in").unwrap().read(&store);
    let r0 = bank.sum_all(&a0);
    let r1 = bank.sum_all(&a1);
    let r2 = bank.sum_all(&a2);
    let r3 = bank.sum_all(&a3);
    assert_eq!(r0, 15.0);
    assert_eq!(r1, 15.0);
    assert_eq!(r2, 15.0);
    assert_eq!(r3, 15.0);

    let a0 = m0.get_component("c0").unwrap().get_output("out").unwrap();
    let a1 = m0.get_component("c1").unwrap().get_input("in").unwrap();
    let a2 = m0.get_component("c1").unwrap().get_output("out").unwrap();
    let a3 = m0.get_component("c2").unwrap().get_input("in").unwrap();
    let r0 = bank.sum_all(&a0);
    let r1 = bank.sum_all(&a1);
    let r2 = bank.sum_all(&a2);
    let r3 = bank.sum_all(&a3);
    assert_eq!(r0, 15.0);
    assert_eq!(r1, 15.0);
    assert_eq!(r2, 15.0);
    assert_eq!(r3, 0.0);

    m0.get_component("c0").unwrap().input(&store);
    m0.get_component("c1").unwrap().input(&store);
    m0.get_component("c2").unwrap().input(&store);
    m0.get_component("c0").unwrap().fire().unwrap();
    m0.get_component("c1").unwrap().fire().unwrap();
    m0.get_component("c2").unwrap().fire().unwrap();
    m0.get_component("c0").unwrap().output(&mut store).unwrap();
    m0.get_component("c1").unwrap().output(&mut store).unwrap();
    m0.get_component("c2").unwrap().output(&mut store).unwrap();

    let a0 = m0.get_component("c0").unwrap().get_out_port("out").unwrap().read(&store);
    let a1 = m0.get_component("c1").unwrap().get_in_port("in").unwrap().read(&store);
    let a2 = m0.get_component("c1").unwrap().get_out_port("out").unwrap().read(&store);
    let a3 = m0.get_component("c2").unwrap().get_in_port("in").unwrap().read(&store);
    let r0 = bank.sum_all(&a0);
    let r1 = bank.sum_all(&a1);
    let r2 = bank.sum_all(&a2);
    let r3 = bank.sum_all(&a3);
    assert_eq!(r0, 15.0);
    assert_eq!(r1, 15.0);
    assert_eq!(r2, 15.0);
    assert_eq!(r3, 15.0);

    let a0 = m0.get_component("c0").unwrap().get_output("out").unwrap();
    let a1 = m0.get_component("c1").unwrap().get_input("in").unwrap();
    let a2 = m0.get_component("c1").unwrap().get_output("out").unwrap();
    let a3 = m0.get_component("c2").unwrap().get_input("in").unwrap();
    let r0 = bank.sum_all(&a0);
    let r1 = bank.sum_all(&a1);
    let r2 = bank.sum_all(&a2);
    let r3 = bank.sum_all(&a3);
    assert_eq!(r0, 15.0);
    assert_eq!(r1, 15.0);
    assert_eq!(r2, 15.0);
    assert_eq!(r3, 15.0);
}
