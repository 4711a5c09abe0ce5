//! End-to-end tests of the three-stage pipeline: the library validates
//! the pattern and orders the columns, then the `rlu` crate factors the
//! permuted matrix and substitutes through the triangular factors.

use num_complex::Complex64;
use pyrlu::ordering::order;

/// Orders, factors and solves in place, the way the binding glue does.
fn run_pipeline<S: rlu::Scalar + Send + Sync>(
    n: i32,
    rowind: &[i32],
    colptr: &[i32],
    nz: &[S],
    b: &mut [S],
    trans: bool,
    par: bool,
) -> Result<(), String> {
    let colptr_v: Vec<i32> = colptr.to_vec();
    let rowind_v: Vec<i32> = rowind.to_vec();
    let (q, _status) = order(n, &colptr_v, &rowind_v).map_err(|e| format!("order error: {:?}", e))?;
    assert_eq!(q.size(), n as usize);
    // One value per structural nonzero.
    pyrlu::csc::check_values_len(rowind.len(), nz.len())
        .map_err(|e| format!("values error: {:?}", e))?;
    // An empty column would crash the numeric factorization; the verified
    // admission check refuses the matrix as singular instead.
    pyrlu::csc::check_structurally_nonsingular(n, &colptr_v).map_err(|e| match e {
        pyrlu::Error::Singular(j) => format!("matrix is structurally singular: column {}", j),
        other => format!("order error: {:?}", other),
    })?;
    // The batch must split evenly into right-hand sides of length n.
    pyrlu::csc::check_rhs_len(n as usize, b.len()).map_err(|e| format!("rhs error: {:?}", e))?;
    let q_i32 = q.to_vec_i32();
    let opts = rlu::Options::default();
    let lu = rlu::factor(n, rowind, colptr, nz, Some(&q_i32), &opts)
        .map_err(|e| format!("factor error: {}", e))?;
    if par {
        rlu::par_solve(&lu, b, trans).map_err(|e| format!("solve error: {}", e))
    } else {
        rlu::solve(&lu, b, trans).map_err(|e| format!("solve error: {}", e))
    }
}

// The 3-by-3 matrix [[4,0,0],[0,3,1],[2,0,5]] in compressed-column form.
const N3: i32 = 3;
const COLPTR3: [i32; 4] = [0, 2, 3, 5];
const ROWIND3: [i32; 5] = [0, 2, 1, 1, 2];
const VALUES3: [f64; 5] = [4.0, 2.0, 3.0, 1.0, 5.0];

#[test]
fn three_by_three_serial_solve() {
    let mut b: Vec<f64> = vec![4.0, 5.0, 12.0];
    run_pipeline(N3, &ROWIND3, &COLPTR3, &VALUES3, &mut b, false, false).unwrap();
    let x = [1.0, 1.0, 2.0];
    for i in 0..3 {
        assert!((b[i] - x[i]).abs() < 1e-9, "x[{}] = {}", i, b[i]);
    }
}

#[test]
fn three_by_three_parallel_matches_serial() {
    let mut serial: Vec<f64> = vec![4.0, 5.0, 12.0];
    let mut parallel: Vec<f64> = serial.clone();
    run_pipeline(N3, &ROWIND3, &COLPTR3, &VALUES3, &mut serial, false, false).unwrap();
    run_pipeline(N3, &ROWIND3, &COLPTR3, &VALUES3, &mut parallel, false, true).unwrap();
    for i in 0..3 {
        assert_eq!(serial[i], parallel[i]);
        assert!((serial[i] - [1.0, 1.0, 2.0][i]).abs() < 1e-9);
    }
}

#[test]
fn residual_is_small_for_a_batch_of_right_hand_sides() {
    // A 5-by-5 diagonally dominant matrix with off-diagonal couplings.
    let n: i32 = 5;
    let colptr: [i32; 6] = [0, 3, 5, 8, 10, 13];
    let rowind: [i32; 13] = [0, 1, 4, 1, 2, 0, 2, 3, 3, 4, 0, 2, 4];
    let values: [f64; 13] = [
        10.0, -1.0, 2.0, 8.0, -3.0, 1.5, 9.0, -2.0, 7.5, -1.0, 0.5, -2.5, 11.0,
    ];
    let xs: [f64; 10] = [1.0, -2.0, 3.0, -4.0, 5.0, 0.5, 0.25, -0.125, 2.5, -1.5];
    // b = A * x for two right-hand sides, column by column.
    let mut b: Vec<f64> = vec![0.0; 10];
    for col in 0..2 {
        for j in 0..5 {
            for k in colptr[j] as usize..colptr[j + 1] as usize {
                b[col * 5 + rowind[k] as usize] += values[k] * xs[col * 5 + j];
            }
        }
    }
    let expected = b.clone();
    run_pipeline(n, &rowind, &colptr, &values, &mut b, false, false).unwrap();
    // b now holds the solutions; the residual A*x - b0 must be tiny.
    let mut residual: Vec<f64> = expected.iter().map(|v| -v).collect();
    for col in 0..2 {
        for j in 0..5 {
            for k in colptr[j] as usize..colptr[j + 1] as usize {
                residual[col * 5 + rowind[k] as usize] += values[k] * b[col * 5 + j];
            }
        }
    }
    for i in 0..10 {
        assert!((b[i] - xs[i]).abs() < 1e-9, "x[{}] = {}", i, b[i]);
        assert!(residual[i].abs() < 1e-9, "residual[{}] = {}", i, residual[i]);
    }
}

#[test]
fn serial_and_parallel_batches_are_identical() {
    let n: i32 = 5;
    let colptr: [i32; 6] = [0, 3, 5, 8, 10, 13];
    let rowind: [i32; 13] = [0, 1, 4, 1, 2, 0, 2, 3, 3, 4, 0, 2, 4];
    let values: [f64; 13] = [
        10.0, -1.0, 2.0, 8.0, -3.0, 1.5, 9.0, -2.0, 7.5, -1.0, 0.5, -2.5, 11.0,
    ];
    let mut serial: Vec<f64> = (0..20).map(|i| (i as f64) * 0.75 - 6.0).collect();
    let mut parallel = serial.clone();
    run_pipeline(n, &rowind, &colptr, &values, &mut serial, false, false).unwrap();
    run_pipeline(n, &rowind, &colptr, &values, &mut parallel, false, true).unwrap();
    for i in 0..20 {
        assert_eq!(serial[i], parallel[i], "column entry {}", i);
    }
}

#[test]
fn transposed_solve_matches_explicit_transpose() {
    let n: usize = 5;
    let colptr: [i32; 6] = [0, 3, 5, 8, 10, 13];
    let rowind: [i32; 13] = [0, 1, 4, 1, 2, 0, 2, 3, 3, 4, 0, 2, 4];
    let values: [f64; 13] = [
        10.0, -1.0, 2.0, 8.0, -3.0, 1.5, 9.0, -2.0, 7.5, -1.0, 0.5, -2.5, 11.0,
    ];
    // Build the explicit transpose in compressed-column form.
    let mut t_cols: Vec<Vec<(i32, f64)>> = vec![Vec::new(); n];
    for j in 0..n {
        for k in colptr[j] as usize..colptr[j + 1] as usize {
            t_cols[rowind[k] as usize].push((j as i32, values[k]));
        }
    }
    let mut t_colptr: Vec<i32> = vec![0];
    let mut t_rowind: Vec<i32> = Vec::new();
    let mut t_values: Vec<f64> = Vec::new();
    for col in &t_cols {
        for (i, v) in col {
            t_rowind.push(*i);
            t_values.push(*v);
        }
        t_colptr.push(t_rowind.len() as i32);
    }
    let b0: Vec<f64> = vec![3.0, -1.0, 4.0, 1.0, -5.0];
    let mut via_flag = b0.clone();
    run_pipeline(n as i32, &rowind, &colptr, &values, &mut via_flag, true, false).unwrap();
    let mut via_transpose = b0.clone();
    run_pipeline(
        n as i32,
        &t_rowind,
        &t_colptr,
        &t_values,
        &mut via_transpose,
        false,
        false,
    )
    .unwrap();
    for i in 0..n {
        assert!(
            (via_flag[i] - via_transpose[i]).abs() < 1e-9,
            "x[{}]: {} vs {}",
            i,
            via_flag[i],
            via_transpose[i]
        );
    }
}

#[test]
fn unsorted_columns_solve_the_same_system() {
    // The 3-by-3 system with the entries of each column listed in
    // arbitrary order: the stages must tolerate unsorted columns.
    let rowind: [i32; 5] = [2, 0, 1, 2, 1];
    let values: [f64; 5] = [2.0, 4.0, 3.0, 5.0, 1.0];
    let mut b: Vec<f64> = vec![4.0, 5.0, 12.0];
    run_pipeline(N3, &rowind, &COLPTR3, &values, &mut b, false, false).unwrap();
    let x = [1.0, 1.0, 2.0];
    for i in 0..3 {
        assert!((b[i] - x[i]).abs() < 1e-9, "x[{}] = {}", i, b[i]);
    }
}

#[test]
fn structurally_singular_matrix_reports_an_error() {
    // Column 1 holds no nonzero at all.
    let colptr: [i32; 4] = [0, 2, 2, 4];
    let rowind: [i32; 4] = [0, 1, 0, 2];
    let values: [f64; 4] = [1.0, 2.0, 3.0, 4.0];
    assert_eq!(pyrlu::csc::find_empty_column(3, &colptr.to_vec()), Some(1));
    let mut b: Vec<f64> = vec![1.0, 1.0, 1.0];
    let r = run_pipeline(3, &rowind, &colptr, &values, &mut b, false, false);
    assert_eq!(r, Err("matrix is structurally singular: column 1".to_string()));
}

#[test]
fn complex_system_solves() {
    // [[1+i, 0], [0, 2]] x = [2+2i, 4] has the solution [2, 2].
    let colptr: [i32; 3] = [0, 1, 2];
    let rowind: [i32; 2] = [0, 1];
    let values: [Complex64; 2] = [Complex64::new(1.0, 1.0), Complex64::new(2.0, 0.0)];
    let mut b: Vec<Complex64> = vec![Complex64::new(2.0, 2.0), Complex64::new(4.0, 0.0)];
    run_pipeline(2, &rowind, &colptr, &values, &mut b, false, false).unwrap();
    assert!((b[0] - Complex64::new(2.0, 0.0)).norm() < 1e-9);
    assert!((b[1] - Complex64::new(2.0, 0.0)).norm() < 1e-9);
}

#[test]
fn repeated_runs_are_bit_identical() {
    let n: i32 = 5;
    let colptr: [i32; 6] = [0, 3, 5, 8, 10, 13];
    let rowind: [i32; 13] = [0, 1, 4, 1, 2, 0, 2, 3, 3, 4, 0, 2, 4];
    let values: [f64; 13] = [
        10.0, -1.0, 2.0, 8.0, -3.0, 1.5, 9.0, -2.0, 7.5, -1.0, 0.5, -2.5, 11.0,
    ];
    let b0: Vec<f64> = (0..10).map(|i| (i as f64) * 1.25 - 4.0).collect();
    let mut first = b0.clone();
    let mut second = b0.clone();
    run_pipeline(n, &rowind, &colptr, &values, &mut first, false, false).unwrap();
    run_pipeline(n, &rowind, &colptr, &values, &mut second, false, false).unwrap();
    for i in 0..10 {
        assert_eq!(first[i], second[i], "entry {}", i);
    }
}

#[test]
fn mismatched_values_array_is_rejected() {
    // One value too few for the five structural nonzeros.
    let values: [f64; 4] = [4.0, 2.0, 3.0, 1.0];
    let mut b: Vec<f64> = vec![4.0, 5.0, 12.0];
    let r = run_pipeline(N3, &ROWIND3, &COLPTR3, &values, &mut b, false, false);
    assert!(r.is_err());
}

#[test]
fn mismatched_right_hand_side_is_rejected() {
    let mut b: Vec<f64> = vec![1.0, 2.0, 3.0, 4.0];
    let r = run_pipeline(N3, &ROWIND3, &COLPTR3, &VALUES3, &mut b, false, false);
    assert!(r.is_err());
}
