use concurrency::{
    multiply, plan_tasks, reduce, run_task, worker_for, Matrix, MatrixError, MsgInput, Vector,
    NUM_THREADS,
};

#[test]
fn test_multiply() {
    let a = Matrix::new(vec![1, 2, 3, 4, 5, 6], 2, 3);
    let b = Matrix::new(vec![1, 2, 3, 4, 5, 6], 3, 2);
    let c = multiply(&a, &b).expect("Matrix multiply error");
    assert_eq!(c.row(), 2);
    assert_eq!(c.col(), 2);
    assert_eq!(*c.data(), [22, 28, 49, 64]);
    assert_eq!(c.to_debug_string(), "Matrix(row=2, col=2, {22 28, 49 64})");
}

#[test]
fn test_matrix_display() {
    let a = Matrix::new(vec![1, 2, 3, 4], 2, 2);
    let b = Matrix::new(vec![1, 2, 3, 4], 2, 2);
    let c = multiply(&a, &b).expect("Matrix multiply error");
    assert_eq!(*c.data(), vec![7, 10, 15, 22]);
    assert_eq!(c.to_display_string(), "{7 10, 15 22}");
}

#[test]
#[should_panic]
fn test_matrix_display_should_panic() {
    let a = Matrix::new(vec![1, 2, 3, 4, 5, 6], 2, 3);
    let b = Matrix::new(vec![1, 2, 3, 4], 2, 2);
    let _matrix = multiply(&a, &b).expect("Matrix multiply error");
}

#[test]
fn test_a_can_not_multiply_b() {
    let a = Matrix::new(vec![1, 2, 3, 4, 5, 6], 2, 3);
    let b = Matrix::new(vec![1, 2, 3, 4], 2, 2);
    let c = multiply(&a, &b);
    assert!(c.is_err());
}

#[test]
fn mismatch_names_both_dimensions() {
    let a = Matrix::new(vec![1, 2, 3, 4, 5, 6], 2, 3);
    let b = Matrix::new(vec![1, 2, 3, 4], 2, 2);
    assert_eq!(
        multiply(&a, &b).err(),
        Some(MatrixError::DimensionMismatch { left: 3, right: 2 })
    );
    assert!(plan_tasks(&a, &b).is_err());
}

#[test]
fn product_cells_match_row_by_column() {
    // 3x2 times 2x4
    let a = Matrix::new(vec![1i64, -2, 3, 4, -5, 6], 3, 2);
    let b = Matrix::new(vec![7i64, 8, 9, 10, 11, 12, 13, 14], 2, 4);
    let c = multiply(&a, &b).unwrap();
    assert_eq!(c.row(), 3);
    assert_eq!(c.col(), 4);
    for i in 0..3 {
        for j in 0..4 {
            let mut expected = 0i64;
            for k in 0..2 {
                expected += a.data()[i * 2 + k] * b.data()[k * 4 + j];
            }
            assert_eq!(c.data()[i * 4 + j], expected);
        }
    }
}

#[test]
fn repeated_multiplication_is_identical() {
    let a = Matrix::new(vec![3u32, 1, 4, 1, 5, 9, 2, 6, 5], 3, 3);
    let b = Matrix::new(vec![2u32, 7, 1, 8, 2, 8, 1, 8, 2], 3, 3);
    let first = multiply(&a, &b).unwrap();
    let second = multiply(&a, &b).unwrap();
    assert_eq!(first.data(), second.data());
    assert_eq!(first.to_display_string(), second.to_display_string());
}

#[test]
fn empty_inner_dimension_gives_zeros() {
    let a: Matrix<i32> = Matrix::new(vec![], 2, 0);
    let b: Matrix<i32> = Matrix::new(vec![], 0, 3);
    let c = multiply(&a, &b).unwrap();
    assert_eq!(c.row(), 2);
    assert_eq!(c.col(), 3);
    assert_eq!(*c.data(), vec![0; 6]);
    assert_eq!(c.to_display_string(), "{0 0 0, 0 0 0}");
}

#[test]
fn empty_matrix_renders_as_braces() {
    let m: Matrix<i32> = Matrix::new(vec![], 0, 0);
    assert_eq!(m.to_display_string(), "{}");
    assert_eq!(m.to_debug_string(), "Matrix(row=0, col=0, {})");
}

#[test]
fn negative_and_wide_values_render_in_decimal() {
    let m = Matrix::new(vec![-7i32, 0, 120, -2147483648], 2, 2);
    assert_eq!(m.to_display_string(), "{-7 0, 120 -2147483648}");
    let w = Matrix::new(vec![u64::MAX, 10], 1, 2);
    assert_eq!(w.to_debug_string(), "Matrix(row=1, col=2, {18446744073709551615 10})");
}

#[test]
fn products_wrap_on_overflow() {
    let a = Matrix::new(vec![i32::MAX, 1], 1, 2);
    let b = Matrix::new(vec![2, 2], 2, 1);
    let c = multiply(&a, &b).unwrap();
    assert_eq!(*c.data(), vec![i32::MAX.wrapping_mul(2).wrapping_add(2)]);
}

#[test]
fn tasks_cover_every_cell_in_row_major_order() {
    let a = Matrix::new(vec![1, 2, 3, 4, 5, 6], 2, 3);
    let b = Matrix::new(vec![1, 2, 3, 4, 5, 6], 3, 2);
    let tasks = plan_tasks(&a, &b).unwrap();
    assert_eq!(tasks.len(), 4);
    let mut values = Vec::new();
    for (p, task) in tasks.into_iter().enumerate() {
        assert_eq!(task.idx(), p);
        let out = run_task(task).unwrap();
        assert_eq!(out.idx(), p);
        values.push(out.value());
    }
    assert_eq!(values, vec![22, 28, 49, 64]);
}

#[test]
fn tasks_go_round_robin_to_workers() {
    assert_eq!(NUM_THREADS, 4);
    assert_eq!(worker_for(0), 0);
    assert_eq!(worker_for(3), 3);
    assert_eq!(worker_for(4), 0);
    assert_eq!(worker_for(9), 1);
}

#[test]
fn run_task_rejects_unequal_slices() {
    let task = MsgInput::new(5, Vector::new(vec![1, 2, 3]), Vector::new(vec![1, 2]));
    assert_eq!(task.idx(), 5);
    assert_eq!(
        run_task(task).err(),
        Some(MatrixError::DimensionMismatch { left: 3, right: 2 })
    );
}

#[test]
fn replies_in_any_order_fill_the_same_result() {
    let a = Matrix::new(vec![1, 2, 3, 4], 2, 2);
    let b = Matrix::new(vec![5, 6, 7, 8], 2, 2);
    let tasks = plan_tasks(&a, &b).unwrap();
    let mut outputs: Vec<_> = tasks.into_iter().map(|t| run_task(t).unwrap()).collect();
    outputs.reverse();
    outputs.swap(0, 2);
    let c = reduce(2, 2, outputs).unwrap();
    assert_eq!(*c.data(), vec![19, 22, 43, 50]);
    assert_eq!(c.data(), multiply(&a, &b).unwrap().data());
}

#[test]
fn reply_outside_the_result_is_a_failure() {
    let a = Matrix::new(vec![1, 2, 3, 4], 2, 2);
    let b = Matrix::new(vec![5, 6, 7, 8], 2, 2);
    let tasks = plan_tasks(&a, &b).unwrap();
    let outputs: Vec<_> = tasks.into_iter().map(|t| run_task(t).unwrap()).collect();
    assert_eq!(
        reduce(1, 2, outputs).err(),
        Some(MatrixError::WorkerCommunicationFailure)
    );
}

#[test]
fn missing_replies_leave_zeros() {
    let c = reduce::<i32>(1, 3, Vec::new()).unwrap();
    assert_eq!(*c.data(), vec![0, 0, 0]);
}
