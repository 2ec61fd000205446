//! The builder, the matrix extraction and the reporter, exercised end to end
//! against the real field arithmetic.

use r1cs_bench::field::Fe;
use r1cs_bench::print_panic;
use r1cs_bench::r1cs::{
    lc_of_pair, lc_of_var, ConstraintSystem, LinearCombination, SynthesisError, Variable,
};
use r1cs_bench::reporter::{prettify_matrix, sparsity_percent};

fn fe(n: u64) -> Fe {
    Fe::from_u64(n)
}

#[test]
fn field_ops_compute_real_values() {
    assert!(fe(3).mul(&fe(4)) == fe(12));
    assert!(fe(3).add(&fe(4)) == fe(7));
    assert!(fe(9).sub(&fe(2)) == fe(7));
    assert!(fe(5).sub(&fe(5)) == fe(0));
    assert!(fe(1).mul(&fe(9)) == fe(9));
    assert!(fe(0).add(&fe(9)) == fe(9));
    assert!(fe(3) != fe(4));
}

#[test]
fn from_u64_encodes_little_endian() {
    let b = fe(5).to_bytes();
    assert_eq!(b[0], 5);
    assert!(b[1..].iter().all(|&x| x == 0));
    let big = fe(0x0102030405060708).to_bytes();
    assert_eq!(big[7], 0x01);
    assert_eq!(big[0], 0x08);
}

#[test]
fn empty_system_counts_zero() {
    let cs = ConstraintSystem::new();
    let counts = cs.counts();
    assert_eq!(counts.constraints, 0);
    assert_eq!(counts.witness, 0);
    assert_eq!(counts.instance, 0);
    assert!(!cs.is_finalized());
}

#[test]
fn allocation_orders_handles() {
    let mut cs = ConstraintSystem::new();
    let w0 = cs.allocate_witness(Some(fe(3))).unwrap();
    let w1 = cs.allocate_witness(Some(fe(4))).unwrap();
    let i0 = cs.allocate_instance(Some(fe(12))).unwrap();
    assert_eq!(w0, Variable::Witness(0));
    assert_eq!(w1, Variable::Witness(1));
    assert_eq!(i0, Variable::Instance(0));
    assert!(cs.witness_at(0) == Some(fe(3)));
    assert!(cs.witness_at(1) == Some(fe(4)));
    assert!(cs.instance_at(0) == Some(fe(12)));
}

#[test]
fn duplicate_handle_contributions_are_summed() {
    let mut cs = ConstraintSystem::new();
    let w0 = cs.allocate_witness(Some(fe(3))).unwrap();
    let mut lc = LinearCombination::new();
    lc.add_term(w0, fe(2));
    lc.add_term(w0, fe(3));
    assert_eq!(lc.len(), 1);
    let t = lc.term_at(0);
    assert_eq!(t.0, w0);
    assert!(t.1 == fe(5));
}

#[test]
fn use_after_finalize_is_rejected_and_harmless() {
    let mut cs = ConstraintSystem::new();
    let w0 = cs.allocate_witness(Some(fe(2))).unwrap();
    cs.finalize();
    assert_eq!(cs.allocate_witness(Some(fe(9))), Err(SynthesisError::UseAfterFinalize));
    assert_eq!(cs.allocate_instance(Some(fe(9))), Err(SynthesisError::UseAfterFinalize));
    let r = cs.enforce(lc_of_var(w0), lc_of_var(w0), lc_of_var(w0));
    assert_eq!(r, Err(SynthesisError::UseAfterFinalize));
    let counts = cs.counts();
    assert_eq!(counts.witness, 1);
    assert_eq!(counts.constraints, 0);
}

#[test]
fn finalize_twice_changes_nothing() {
    // Idempotence: a second finalize adds no constraint and raises no error.
    let mut cs = ConstraintSystem::new();
    let w0 = cs.allocate_witness(Some(fe(2))).unwrap();
    let i0 = cs.allocate_instance(Some(fe(4))).unwrap();
    cs.enforce(lc_of_var(w0), lc_of_var(w0), lc_of_var(i0)).unwrap();
    cs.finalize();
    let first = cs.counts();
    let sat_first = cs.is_satisfied();
    cs.finalize();
    let second = cs.counts();
    assert!(cs.is_finalized());
    assert_eq!(first.constraints, second.constraints);
    assert_eq!(first.witness, second.witness);
    assert_eq!(first.instance, second.instance);
    assert_eq!(sat_first, cs.is_satisfied());
    assert_eq!(cs.is_satisfied(), Ok(true));
}

#[test]
fn unassigned_slot_reports_incomplete_not_false() {
    // An unavailable generator value still creates the handle, and the
    // satisfiability check must answer "cannot judge", not "false".
    let mut cs = ConstraintSystem::new();
    let w0 = cs.allocate_witness(None).unwrap();
    assert_eq!(w0, Variable::Witness(0));
    assert_eq!(cs.assigned_value(w0), Err(SynthesisError::AssignmentMissing));
    cs.finalize();
    assert_eq!(cs.is_satisfied(), Err(SynthesisError::IncompleteAssignment));
}

#[test]
fn violated_constraint_reports_false_not_incomplete() {
    let mut cs = ConstraintSystem::new();
    let w0 = cs.allocate_witness(Some(fe(2))).unwrap();
    let w1 = cs.allocate_witness(Some(fe(3))).unwrap();
    let i0 = cs.allocate_instance(Some(fe(7))).unwrap();
    cs.enforce(lc_of_var(w0), lc_of_var(w1), lc_of_var(i0)).unwrap();
    cs.finalize();
    assert_eq!(cs.is_satisfied(), Ok(false));
}

#[test]
fn assigned_value_reads_slots_and_constant_wire() {
    let mut cs = ConstraintSystem::new();
    let w0 = cs.allocate_witness(Some(fe(6))).unwrap();
    let i0 = cs.allocate_instance(Some(fe(8))).unwrap();
    assert!(cs.assigned_value(Variable::One).unwrap() == fe(1));
    assert!(cs.assigned_value(w0).unwrap() == fe(6));
    assert!(cs.assigned_value(i0).unwrap() == fe(8));
}

#[test]
fn matrices_drop_zero_coefficients_and_map_columns() {
    // (2*w0 + 0*w1) * (1*one) = (1*i0), with w0 = 3 and i0 = 6.
    let mut cs = ConstraintSystem::new();
    let w0 = cs.allocate_witness(Some(fe(3))).unwrap();
    let w1 = cs.allocate_witness(Some(fe(7))).unwrap();
    let i0 = cs.allocate_instance(Some(fe(6))).unwrap();
    let mut a = LinearCombination::new();
    a.add_term(w0, fe(2));
    a.add_term(w1, fe(0));
    let b = lc_of_var(Variable::One);
    let c = lc_of_var(i0);
    cs.enforce(a, b, c).unwrap();
    cs.finalize();
    assert_eq!(cs.is_satisfied(), Ok(true));
    let m = cs.to_matrices();
    assert_eq!(m.a.len(), 1);
    assert_eq!(m.b.len(), 1);
    assert_eq!(m.c.len(), 1);
    // The zero coefficient on w1 must not be stored.
    assert_eq!(m.a[0].len(), 1);
    assert_eq!(m.a[0][0].0, 1);
    assert!(m.a[0][0].1 == fe(2));
    // The constant wire shows up as column 0 exactly because B names it.
    assert_eq!(m.b[0].len(), 1);
    assert_eq!(m.b[0][0].0, 0);
    assert!(m.b[0][0].1 == fe(1));
    // Instance columns follow the witness columns.
    assert_eq!(m.c[0].len(), 1);
    assert_eq!(m.c[0][0].0, 3);
    assert_eq!(m.a_num_non_zero, 1);
    assert_eq!(m.b_num_non_zero, 1);
    assert_eq!(m.c_num_non_zero, 1);
}

#[test]
fn matrix_rows_match_constraint_count_and_stay_in_columns() {
    let mut cs = ConstraintSystem::new();
    let w0 = cs.allocate_witness(Some(fe(2))).unwrap();
    let w1 = cs.allocate_witness(Some(fe(5))).unwrap();
    let i0 = cs.allocate_instance(Some(fe(10))).unwrap();
    cs.enforce(lc_of_var(w0), lc_of_var(w1), lc_of_var(i0)).unwrap();
    cs.enforce(lc_of_pair(w0, w1), lc_of_var(Variable::One), lc_of_var(w1)).unwrap();
    cs.finalize();
    let counts = cs.counts();
    let m = cs.to_matrices();
    assert_eq!(m.a.len(), counts.constraints);
    assert_eq!(m.b.len(), counts.constraints);
    assert_eq!(m.c.len(), counts.constraints);
    let num_cols = 1 + counts.witness + counts.instance;
    let zero = fe(0);
    for matrix in [&m.a, &m.b, &m.c] {
        let mut stored = 0;
        for row in matrix.iter() {
            for entry in row.iter() {
                assert!(entry.0 < num_cols);
                assert!(!(entry.1 == zero));
                stored += 1;
            }
        }
        assert!(stored > 0);
    }
    assert_eq!(m.a_num_non_zero, 3);
    assert_eq!(m.b_num_non_zero, 2);
    assert_eq!(m.c_num_non_zero, 2);
}

#[test]
fn dense_reconstruction_places_entries() {
    // One row with entries at columns 1 and 3, out of 4 columns.
    let row = vec![(1usize, fe(2)), (3usize, fe(6))];
    let matrix = vec![row];
    let dense = prettify_matrix(4, &matrix);
    assert_eq!(dense.len(), 1);
    assert_eq!(dense[0].len(), 4);
    assert!(dense[0][0] == fe(0));
    assert!(dense[0][1] == fe(2));
    assert!(dense[0][2] == fe(0));
    assert!(dense[0][3] == fe(6));
}

#[test]
fn sparsity_percentage_is_exact() {
    // 3 rows of 6 columns with 3 nonzeros: 15 of 18 slots are zero.
    assert_eq!(sparsity_percent(3, 6, 3), 83);
    assert_eq!(sparsity_percent(1, 4, 4), 0);
    assert_eq!(sparsity_percent(2, 5, 0), 100);
}

#[test]
fn print_panic_formats_the_message() {
    assert_eq!(print_panic("0 is not a valid number of rounds"), "Error: 0 is not a valid number of rounds");
}
