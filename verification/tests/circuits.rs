//! Every circuit generator, run end to end: synthesize into a fresh builder,
//! seal, check satisfiability, and compare the public output against the
//! independently computed oracle.

use r1cs_bench::basic_circuit::BasicCircuit;
use r1cs_bench::circuit_traits::BenchCircuit;
use r1cs_bench::dense_circuit::DenseCircuit;
use r1cs_bench::dummy2_circuit::Dummy2Circuit;
use r1cs_bench::fibonacci2_circuit::Fibonacci2Circuit;
use r1cs_bench::field::Fe;
use r1cs_bench::product_circuit::ProductCircuit;
use r1cs_bench::r1cs::ConstraintSystem;
use r1cs_bench::sum_circuit::SumCircuit;
use r1cs_bench::sumprod_circuit::SumProdCircuit;

fn fe(n: u64) -> Fe {
    Fe::from_u64(n)
}

#[test]
fn single_multiplication_scenario() {
    // Seeds 3 and 4: one constraint, oracle 12, satisfiable.
    let c = BasicCircuit { a: fe(3), b: fe(4), num_constraints: 1 };
    let mut cs = ConstraintSystem::new();
    c.generate_constraints(&mut cs).unwrap();
    let counts = cs.counts();
    assert_eq!(counts.constraints, 1);
    assert_eq!(counts.witness, 2);
    assert_eq!(counts.instance, 1);
    assert!(c.get_result() == fe(12));
    assert!(cs.instance_at(0) == Some(fe(12)));
    cs.finalize();
    assert_eq!(cs.is_satisfied(), Ok(true));
}

#[test]
fn product_chain_scenario() {
    // Round count 1 lands on t = 4 after the +3 floor: oracle 2^4 = 16 and
    // t - 1 = 3 chained constraints, satisfiable.
    let c = ProductCircuit { x: fe(2), t: 4 };
    let mut cs = ConstraintSystem::new();
    c.generate_constraints(&mut cs).unwrap();
    let counts = cs.counts();
    assert_eq!(counts.constraints, 3);
    assert_eq!(counts.witness, 3);
    assert_eq!(counts.instance, 1);
    assert!(c.get_result() == fe(16));
    assert!(cs.instance_at(0) == Some(fe(16)));
    cs.finalize();
    assert_eq!(cs.is_satisfied(), Ok(true));
}

#[test]
fn dense_oracle_is_squared_sum() {
    let c = DenseCircuit { a: fe(2), b: fe(3), num_constraints: 3 };
    let mut cs = ConstraintSystem::new();
    c.generate_constraints(&mut cs).unwrap();
    assert_eq!(cs.counts().constraints, 3);
    assert!(c.get_result() == fe(25));
    assert!(cs.instance_at(0) == Some(fe(25)));
    cs.finalize();
    assert_eq!(cs.is_satisfied(), Ok(true));
}

#[test]
fn affine_combination_oracle() {
    let c = Dummy2Circuit { a: fe(2), b: fe(3), s: fe(4), num_constraints: 3 };
    let mut cs = ConstraintSystem::new();
    c.generate_constraints(&mut cs).unwrap();
    assert!(c.get_result() == fe(18));
    assert!(cs.instance_at(0) == Some(fe(18)));
    cs.finalize();
    assert_eq!(cs.is_satisfied(), Ok(true));
}

#[test]
fn fibonacci_oracle_is_tenth_term() {
    let c = Fibonacci2Circuit { x: fe(0), t: 10 };
    let mut cs = ConstraintSystem::new();
    c.generate_constraints(&mut cs).unwrap();
    // v(10) of 0, 1, 1, 2, 3, 5, 8, 13, 21, 34, 55.
    assert!(c.get_result() == fe(55));
    assert!(cs.instance_at(0) == Some(fe(55)));
    assert_eq!(cs.counts().constraints, 9);
    assert_eq!(cs.counts().witness, 10);
    cs.finalize();
    assert_eq!(cs.is_satisfied(), Ok(true));
}

#[test]
fn sum_chain_doubles_the_total() {
    // Entries 3, 3, 6 at t = 4: the final total is 3 + 3 + 6 = 12.
    let c = SumCircuit { x: fe(3), t: 4 };
    let mut cs = ConstraintSystem::new();
    c.generate_constraints(&mut cs).unwrap();
    assert!(c.get_result() == fe(12));
    assert!(cs.instance_at(0) == Some(fe(12)));
    assert_eq!(cs.counts().constraints, 3);
    assert_eq!(cs.counts().witness, 4);
    cs.finalize();
    assert_eq!(cs.is_satisfied(), Ok(true));
}

#[test]
fn sumprod_chain_squares_the_total() {
    // Entries 2, 4: the output is (2 + 4)^2 = 36 at t = 3.
    let c = SumProdCircuit { x: fe(2), t: 3 };
    let mut cs = ConstraintSystem::new();
    c.generate_constraints(&mut cs).unwrap();
    assert!(c.get_result() == fe(36));
    assert!(cs.instance_at(0) == Some(fe(36)));
    assert_eq!(cs.counts().constraints, 2);
    assert_eq!(cs.counts().witness, 2);
    cs.finalize();
    assert_eq!(cs.is_satisfied(), Ok(true));
}

#[test]
fn random_basic_circuit_is_satisfiable() {
    let c = BasicCircuit::new_random(7, 1);
    assert_eq!(c.num_constraints, 3);
    let mut cs = ConstraintSystem::new();
    c.generate_constraints(&mut cs).unwrap();
    assert!(cs.instance_at(0) == Some(c.get_result()));
    cs.finalize();
    assert_eq!(cs.is_satisfied(), Ok(true));
}

#[test]
fn random_dense_circuit_is_satisfiable() {
    let c = DenseCircuit::new_random(11, 2);
    assert_eq!(c.num_constraints, 4);
    let mut cs = ConstraintSystem::new();
    c.generate_constraints(&mut cs).unwrap();
    assert!(cs.instance_at(0) == Some(c.get_result()));
    cs.finalize();
    assert_eq!(cs.is_satisfied(), Ok(true));
}

#[test]
fn random_affine_circuit_is_satisfiable() {
    let c = Dummy2Circuit::new_random(13, 2);
    let mut cs = ConstraintSystem::new();
    c.generate_constraints(&mut cs).unwrap();
    assert!(cs.instance_at(0) == Some(c.get_result()));
    cs.finalize();
    assert_eq!(cs.is_satisfied(), Ok(true));
}

#[test]
fn random_product_circuit_is_satisfiable() {
    let c = ProductCircuit::new_random(17, 3);
    assert_eq!(c.t, 6);
    let mut cs = ConstraintSystem::new();
    c.generate_constraints(&mut cs).unwrap();
    assert_eq!(cs.counts().constraints, 5);
    assert!(cs.instance_at(0) == Some(c.get_result()));
    cs.finalize();
    assert_eq!(cs.is_satisfied(), Ok(true));
}

#[test]
fn random_fibonacci_circuit_is_satisfiable() {
    let c = Fibonacci2Circuit::new_random(19, 2);
    assert_eq!(c.t, 5);
    let mut cs = ConstraintSystem::new();
    c.generate_constraints(&mut cs).unwrap();
    assert!(cs.instance_at(0) == Some(c.get_result()));
    cs.finalize();
    assert_eq!(cs.is_satisfied(), Ok(true));
}

#[test]
fn random_sum_circuit_is_satisfiable() {
    let c = SumCircuit::new_random(23, 2);
    assert_eq!(c.t, 5);
    let mut cs = ConstraintSystem::new();
    c.generate_constraints(&mut cs).unwrap();
    assert!(cs.instance_at(0) == Some(c.get_result()));
    cs.finalize();
    assert_eq!(cs.is_satisfied(), Ok(true));
}

#[test]
fn random_sumprod_circuit_is_satisfiable() {
    let c = SumProdCircuit::new_random(29, 2);
    let mut cs = ConstraintSystem::new();
    c.generate_constraints(&mut cs).unwrap();
    assert!(cs.instance_at(0) == Some(c.get_result()));
    cs.finalize();
    assert_eq!(cs.is_satisfied(), Ok(true));
}

#[test]
fn product_matrices_describe_the_chain() {
    // x, x^2, x^3 as witnesses, x^4 as output: each row of A and B holds one
    // coefficient-one entry, and only C's last row points at the instance
    // column.
    let c = ProductCircuit { x: fe(2), t: 4 };
    let mut cs = ConstraintSystem::new();
    c.generate_constraints(&mut cs).unwrap();
    cs.finalize();
    let counts = cs.counts();
    let m = cs.to_matrices();
    assert_eq!(m.a.len(), counts.constraints);
    assert_eq!(m.a_num_non_zero, 3);
    assert_eq!(m.b_num_non_zero, 3);
    assert_eq!(m.c_num_non_zero, 3);
    for k in 0..3usize {
        // A row k: the k-th power, at witness column k + 1.
        assert_eq!(m.a[k], vec![(k + 1, fe(1))]);
        // B row k: always x itself, at witness column 1.
        assert_eq!(m.b[k], vec![(1, fe(1))]);
    }
    assert_eq!(m.c[0], vec![(2, fe(1))]);
    assert_eq!(m.c[1], vec![(3, fe(1))]);
    // The final product lands in the instance column 1 + witness count.
    assert_eq!(m.c[2], vec![(4, fe(1))]);
}
