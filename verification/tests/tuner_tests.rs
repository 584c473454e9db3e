use std::cell::Cell;

use cube_autotune::error::{CandidateFailure, TuneError};
use cube_autotune::matmul::{
    matmul, matmul_autotune, matmul_candidates, matmul_input_gen, matmul_tuner,
    tiling2d_launch_check, MatmulCandidate, MatmulInputs, MatmulStrategy,
};
use cube_autotune::reduce::{
    autotune_reduce, autotune_sum, create_key, create_key_sum, reduce_candidates, reduce_tuner,
    sum_candidates, sum_tuner, ReduceCandidate, ReduceInputs, ReduceLaunch, SumCandidate,
};
use cube_autotune::conv_transpose2d::{
    conv_transpose2d_autotune, conv_transpose2d_candidates, conv_transpose2d_tuner,
    ConvTranspose2dCandidate, ConvTranspose2dInputs, ConvTransposeOptions, Size2,
};
use cube_autotune::synthetic::{Fill, SyntheticOperand};
use cube_autotune::tensor::{DType, TensorDesc};
use cube_autotune::tuner::{
    benchmark, select_fastest, CubeTuneId, Decision, Outcome, Tuner,
};

fn dense(dtype: DType, dims: &[usize]) -> TensorDesc {
    TensorDesc::contiguous(dtype, dims.to_vec()).unwrap()
}

fn scope(device: u64) -> CubeTuneId {
    CubeTuneId { client: 1, device, session: 0 }
}

#[test]
fn a_failed_plan_fails_the_call_and_leaves_the_cache_alone() {
    let key = create_key_sum(&dense(DType::F32, &[64]));
    let candidates = vec![SumCandidate::Chained];
    let mut tuner = Tuner::new(1);
    let touched = Cell::new(false);
    let bench = |_c: SumCandidate, _plan: &SyntheticOperand| {
        touched.set(true);
        Outcome::Measured(1)
    };
    let done = tuner.execute(
        &scope(0),
        &key,
        &candidates,
        || Err::<SyntheticOperand, TuneError>(TuneError::InvalidKeyParameters),
        &bench,
        |_c: SumCandidate| {
            touched.set(true);
            Ok::<(), CandidateFailure>(())
        },
    );
    assert_eq!(done.err(), Some(TuneError::InvalidKeyParameters));
    assert!(!touched.get());
    assert_eq!(tuner.lookup(&scope(0), &key), None);
}

#[test]
fn a_convolution_without_groups_fails_without_touching_a_candidate() {
    let weights = dense(DType::F32, &[8, 3, 3, 3]);
    let input = dense(DType::F32, &[2, 3, 32, 32]);
    let options = ConvTransposeOptions {
        stride: Size2 { h: 1, w: 1 },
        padding: Size2 { h: 0, w: 0 },
        padding_out: Size2 { h: 0, w: 0 },
        dilation: Size2 { h: 1, w: 1 },
        groups: 0,
    };
    let mut tuner = conv_transpose2d_tuner();
    let touched = Cell::new(false);
    let bench = |_c: ConvTranspose2dCandidate, _plan: &ConvTranspose2dInputs| {
        touched.set(true);
        Outcome::Measured(1)
    };
    let done = conv_transpose2d_autotune(
        &mut tuner,
        &scope(0),
        &input,
        &weights,
        &None,
        &options,
        DType::F32,
        &bench,
        |_c| {
            touched.set(true);
            Ok::<(), CandidateFailure>(())
        },
    );
    assert_eq!(done.err(), Some(TuneError::InvalidKeyParameters));
    assert!(!touched.get());
    let key = cube_autotune::conv_transpose2d::create_key(&input, &weights, &None, &options, DType::F32)
        .unwrap();
    assert_eq!(tuner.lookup(&scope(0), &key), None);
}

#[test]
fn sums_in_one_bucket_share_a_cached_decision() {
    let mut tuner = sum_tuner();
    let benchmarks = Cell::new(0u32);
    let bench = |c: SumCandidate, _plan: &SyntheticOperand| {
        benchmarks.set(benchmarks.get() + 1);
        match c {
            SumCandidate::OneShot(8) => Outcome::Measured(3),
            _ => Outcome::Measured(9),
        }
    };
    let first = autotune_sum(&mut tuner, &scope(0), &dense(DType::F32, &[1000]), &bench, |c| {
        Ok::<SumCandidate, CandidateFailure>(c)
    })
    .unwrap();
    let second = autotune_sum(&mut tuner, &scope(0), &dense(DType::F32, &[1024]), &bench, |c| {
        Ok::<SumCandidate, CandidateFailure>(c)
    })
    .unwrap();
    assert_eq!(benchmarks.get(), 8);
    assert!(first.benchmarked);
    assert!(!second.benchmarked);
    assert_eq!(first.output, SumCandidate::OneShot(8));
    assert_eq!(second.output, SumCandidate::OneShot(8));
}

#[test]
fn a_declining_candidate_is_never_the_winner() {
    let lhs = dense(DType::F32, &[4096, 64]);
    let rhs = dense(DType::F32, &[64, 4096]);
    let out = dense(DType::F32, &[4096, 4096]);
    let mut tuner = matmul_tuner();
    // The tiling kernel would be the fastest, but its grid exceeds the device limit.
    let bench = |c: MatmulCandidate, plan: &MatmulInputs| match c {
        MatmulCandidate::Tiling2d => match tiling2d_launch_check(&plan.2.desc.dims, (8, 8, 8)) {
            Ok(()) => Outcome::Measured(1),
            Err(failure) => Outcome::Failed(failure),
        },
        MatmulCandidate::Accelerated => Outcome::Failed(CandidateFailure::ExecutionFailure),
        MatmulCandidate::Simple => Outcome::Measured(500),
    };
    let done = matmul_autotune(&mut tuner, &scope(0), &lhs, &rhs, &out, DType::F32, &bench, |c| {
        Ok::<MatmulCandidate, CandidateFailure>(c)
    })
    .unwrap();
    assert_eq!(done.output, MatmulCandidate::Simple);
    assert_eq!(done.candidate, 2);
}

#[test]
fn lowest_time_wins() {
    let outcomes = vec![Outcome::Measured(30), Outcome::Measured(10), Outcome::Measured(20)];
    assert_eq!(select_fastest(&outcomes), Decision::Winner(1));
}

#[test]
fn first_registered_wins_a_tie() {
    let outcomes = vec![
        Outcome::Measured(30),
        Outcome::Measured(10),
        Outcome::Failed(CandidateFailure::Declined),
        Outcome::Measured(10),
    ];
    assert_eq!(select_fastest(&outcomes), Decision::Winner(1));
    let outcomes = vec![Outcome::Measured(0), Outcome::Measured(0)];
    assert_eq!(select_fastest(&outcomes), Decision::Winner(0));
}

#[test]
fn failed_candidates_drop_out_of_the_comparison() {
    let outcomes = vec![
        Outcome::Failed(CandidateFailure::ExecutionFailure),
        Outcome::Measured(u64::MAX),
        Outcome::Failed(CandidateFailure::Declined),
    ];
    assert_eq!(select_fastest(&outcomes), Decision::Winner(1));
}

#[test]
fn no_usable_candidate_gives_no_winner() {
    assert_eq!(select_fastest(&vec![]), Decision::AllFailed);
    let outcomes = vec![
        Outcome::Failed(CandidateFailure::Declined),
        Outcome::Failed(CandidateFailure::ExecutionFailure),
    ];
    assert_eq!(select_fastest(&outcomes), Decision::AllFailed);
}

#[test]
fn benchmark_runs_every_candidate_in_registration_order() {
    let order = std::cell::RefCell::new(Vec::new());
    let bench = |c: u32, scale: &u64| {
        order.borrow_mut().push(c);
        Outcome::Measured(c as u64 * *scale)
    };
    let outcomes = benchmark(&vec![3u32, 1, 2], &10u64, &bench);
    assert_eq!(
        outcomes,
        vec![Outcome::Measured(30), Outcome::Measured(10), Outcome::Measured(20)]
    );
    assert_eq!(*order.borrow(), vec![3, 1, 2]);
}

#[test]
fn cache_keeps_the_first_decision() {
    let input = dense(DType::F32, &[1024]);
    let key = create_key_sum(&input);
    let mut tuner = Tuner::new(3);
    assert_eq!(tuner.candidates(), 3);
    assert_eq!(tuner.lookup(&scope(0), &key), None);
    assert_eq!(tuner.record(&scope(0), &key, Decision::Winner(2)), Decision::Winner(2));
    assert_eq!(tuner.record(&scope(0), &key, Decision::Winner(0)), Decision::Winner(2));
    assert_eq!(tuner.record(&scope(0), &key, Decision::AllFailed), Decision::Winner(2));
    assert_eq!(tuner.lookup(&scope(0), &key), Some(Decision::Winner(2)));
}

#[test]
fn decisions_do_not_leak_between_devices_or_keys() {
    let key = create_key_sum(&dense(DType::F32, &[1024]));
    let other_key = create_key_sum(&dense(DType::F32, &[4096]));
    let mut tuner = Tuner::new(3);
    tuner.record(&scope(0), &key, Decision::Winner(1));
    assert_eq!(tuner.lookup(&scope(1), &key), None);
    assert_eq!(tuner.lookup(&scope(0), &other_key), None);
    let other_session = CubeTuneId { client: 1, device: 0, session: 9 };
    assert_eq!(tuner.lookup(&other_session, &key), None);
    tuner.record(&scope(1), &key, Decision::AllFailed);
    assert_eq!(tuner.lookup(&scope(0), &key), Some(Decision::Winner(1)));
    assert_eq!(tuner.lookup(&scope(1), &key), Some(Decision::AllFailed));
}

#[test]
fn sum_over_1024_floats_picks_the_faster_candidate_and_keeps_it() {
    let input = dense(DType::F32, &[1024]);
    let key = create_key_sum(&input);
    let candidates = vec![SumCandidate::Chained, SumCandidate::OneShot(64)];
    let mut tuner = Tuner::new(2);
    let runs = Cell::new(0u32);
    let bench = |c: SumCandidate, plan: &SyntheticOperand| {
        runs.set(runs.get() + 1);
        let length = plan.desc.num_elements().unwrap();
        match c {
            SumCandidate::Chained => Outcome::Measured(900),
            SumCandidate::OneShot(chunk) => {
                if length % chunk as usize == 0 {
                    Outcome::Measured(400)
                } else {
                    Outcome::Failed(CandidateFailure::Declined)
                }
            }
        }
    };
    let synthetic = SyntheticOperand::random_like_uniform(&input, -10, 10);
    assert_eq!(
        benchmark(&candidates, &synthetic, &bench),
        vec![Outcome::Measured(900), Outcome::Measured(400)]
    );
    runs.set(0);
    let plans = Cell::new(0u32);
    let plan = || {
        plans.set(plans.get() + 1);
        Ok::<SyntheticOperand, TuneError>(SyntheticOperand::random_like_uniform(&input, -10, 10))
    };
    let first = tuner
        .execute(&scope(0), &key, &candidates, plan, &bench, |c: SumCandidate| {
            Ok::<SumCandidate, CandidateFailure>(c)
        })
        .unwrap();
    assert_eq!(plans.get(), 1);
    assert_eq!(runs.get(), 2);
    assert_eq!(first.candidate, 1);
    assert_eq!(first.output, SumCandidate::OneShot(64));
    assert!(first.benchmarked);
    for _ in 0..3 {
        let again = tuner
            .execute(&scope(0), &key, &candidates, plan, &bench, |c: SumCandidate| {
                Ok::<SumCandidate, CandidateFailure>(c)
            })
            .unwrap();
        assert_eq!(plans.get(), 1);
        assert_eq!(again.candidate, 1);
        assert_eq!(again.output, SumCandidate::OneShot(64));
        assert!(!again.benchmarked);
    }
    assert_eq!(runs.get(), 2);
    assert_eq!(tuner.lookup(&scope(0), &key), Some(Decision::Winner(1)));
}

#[test]
fn a_chunk_that_does_not_divide_the_length_leaves_the_chained_sum() {
    let input = dense(DType::F32, &[1000]);
    let mut tuner = sum_tuner();
    let bench = |c: SumCandidate, plan: &SyntheticOperand| {
        let length = plan.desc.num_elements().unwrap();
        match c {
            SumCandidate::Chained => Outcome::Measured(900),
            SumCandidate::OneShot(chunk) => {
                if chunk >= 16 && length % chunk as usize == 0 {
                    Outcome::Measured(400)
                } else {
                    Outcome::Failed(CandidateFailure::Declined)
                }
            }
        }
    };
    let done = autotune_sum(&mut tuner, &scope(0), &input, &bench, |c: SumCandidate| {
        Ok::<SumCandidate, CandidateFailure>(c)
    })
    .unwrap();
    assert_eq!(done.output, SumCandidate::Chained);
    assert_eq!(done.candidate, 0);
}

#[test]
fn execute_twice_uses_the_same_candidate_without_benchmarking_again() {
    let input = dense(DType::F32, &[8, 256]);
    let output = dense(DType::F32, &[8, 1]);
    let mut tuner = reduce_tuner();
    let benchmarks = Cell::new(0u32);
    let times = Cell::new(100u64);
    let bench = |c: ReduceCandidate, _plan: &ReduceInputs| {
        benchmarks.set(benchmarks.get() + 1);
        // Later measurements differ: a second benchmark would pick another winner.
        let t = times.get();
        times.set(t - 1);
        match c {
            ReduceCandidate::ReducePlane => Outcome::Measured(1),
            _ => Outcome::Measured(t),
        }
    };
    let first = autotune_reduce(&mut tuner, &scope(0), &input, &output, 1, &bench, |c| {
        Ok::<ReduceCandidate, CandidateFailure>(c)
    })
    .unwrap();
    assert_eq!(benchmarks.get(), 4);
    assert!(first.benchmarked);
    assert_eq!(first.output, ReduceCandidate::ReducePlane);
    assert_eq!(first.candidate, 2);
    let second = autotune_reduce(&mut tuner, &scope(0), &input, &output, 1, &bench, |c| {
        Ok::<ReduceCandidate, CandidateFailure>(c)
    })
    .unwrap();
    assert_eq!(benchmarks.get(), 4);
    assert!(!second.benchmarked);
    assert_eq!(second.output, first.output);
    assert_eq!(second.candidate, first.candidate);
}

#[test]
fn each_device_benchmarks_once() {
    let input = dense(DType::F32, &[8, 256]);
    let output = dense(DType::F32, &[8, 1]);
    let mut tuner = reduce_tuner();
    let benchmarks = Cell::new(0u32);
    let bench = |_c: ReduceCandidate, _plan: &ReduceInputs| {
        benchmarks.set(benchmarks.get() + 1);
        Outcome::Measured(5)
    };
    for round in 0..3 {
        for device in 0..2 {
            let done = autotune_reduce(&mut tuner, &scope(device), &input, &output, 1, &bench, |c| {
                Ok::<ReduceCandidate, CandidateFailure>(c)
            })
            .unwrap();
            assert_eq!(done.benchmarked, round == 0);
            assert_eq!(done.output, ReduceCandidate::Reduce);
        }
    }
    assert_eq!(benchmarks.get(), 8);
}

#[test]
fn shapes_in_one_bucket_share_a_cached_decision() {
    let weights = dense(DType::F32, &[8, 3, 3, 3]);
    let options = ConvTransposeOptions {
        stride: Size2 { h: 1, w: 1 },
        padding: Size2 { h: 0, w: 0 },
        padding_out: Size2 { h: 0, w: 0 },
        dilation: Size2 { h: 1, w: 1 },
        groups: 1,
    };
    let mut tuner = conv_transpose2d_tuner();
    let benchmarks = Cell::new(0u32);
    let bench = |c: ConvTranspose2dCandidate, plan: &ConvTranspose2dInputs| {
        benchmarks.set(benchmarks.get() + 1);
        assert_eq!(plan.input.desc.dims, vec![2, 4, 32, 32]);
        assert_eq!(plan.weights.desc.dims, vec![8, 4, 3, 3]);
        assert!(plan.bias.is_none());
        match c {
            ConvTranspose2dCandidate::Direct => Outcome::Measured(70),
            ConvTranspose2dCandidate::Col2Im => Outcome::Measured(50),
        }
    };
    let first = conv_transpose2d_autotune(
        &mut tuner,
        &scope(0),
        &dense(DType::F32, &[2, 3, 32, 32]),
        &weights,
        &None,
        &options,
        DType::F32,
        &bench,
        |c| Ok::<ConvTranspose2dCandidate, CandidateFailure>(c),
    )
    .unwrap();
    let second = conv_transpose2d_autotune(
        &mut tuner,
        &scope(0),
        &dense(DType::F32, &[2, 3, 33, 31]),
        &weights,
        &None,
        &options,
        DType::F32,
        &bench,
        |c| Ok::<ConvTranspose2dCandidate, CandidateFailure>(c),
    )
    .unwrap();
    assert_eq!(benchmarks.get(), 2);
    assert!(first.benchmarked);
    assert!(!second.benchmarked);
    assert_eq!(first.output, ConvTranspose2dCandidate::Col2Im);
    assert_eq!(second.output, ConvTranspose2dCandidate::Col2Im);
}

#[test]
fn one_usable_candidate_is_enough() {
    let input = dense(DType::F32, &[8, 256]);
    let output = dense(DType::F32, &[8, 1]);
    let mut tuner = reduce_tuner();
    let bench = |c: ReduceCandidate, _plan: &ReduceInputs| match c {
        ReduceCandidate::ReduceSharedPlane => Outcome::Measured(u64::MAX),
        ReduceCandidate::ReduceShared => Outcome::Failed(CandidateFailure::ExecutionFailure),
        _ => Outcome::Failed(CandidateFailure::Declined),
    };
    let done = autotune_reduce(&mut tuner, &scope(0), &input, &output, 0, &bench, |c| {
        Ok::<ReduceLaunch, CandidateFailure>(c.strategy())
    });
    let done = done.unwrap();
    assert_eq!(done.candidate, 3);
    assert_eq!(done.output, ReduceLaunch { shared: true, use_planes: true });
}

#[test]
fn all_candidates_declining_fails_and_stays_failed() {
    let lhs = dense(DType::F32, &[4096, 64]);
    let rhs = dense(DType::F32, &[64, 4096]);
    let out = dense(DType::F32, &[4096, 4096]);
    let mut tuner = matmul_tuner();
    let benchmarks = Cell::new(0u32);
    let launched = Cell::new(false);
    // A device whose grid is too small for any candidate.
    let bench = |_c: MatmulCandidate, plan: &MatmulInputs| {
        benchmarks.set(benchmarks.get() + 1);
        match tiling2d_launch_check(&plan.2.desc.dims, (8, 8, 8)) {
            Ok(()) => Outcome::Measured(1),
            Err(failure) => Outcome::Failed(failure),
        }
    };
    let first = matmul_autotune(&mut tuner, &scope(0), &lhs, &rhs, &out, DType::F32, &bench, |_c| {
        launched.set(true);
        Ok::<(), CandidateFailure>(())
    });
    assert_eq!(first.err(), Some(TuneError::AllCandidatesFailed));
    assert_eq!(benchmarks.get(), 3);
    let key = cube_autotune::matmul::create_key(&lhs, &rhs, &out, DType::F32).unwrap();
    assert_eq!(tuner.lookup(&scope(0), &key), Some(Decision::AllFailed));
    let second = matmul_autotune(&mut tuner, &scope(0), &lhs, &rhs, &out, DType::F32, &bench, |_c| {
        launched.set(true);
        Ok::<(), CandidateFailure>(())
    });
    assert_eq!(second.err(), Some(TuneError::AllCandidatesFailed));
    assert_eq!(benchmarks.get(), 3);
    assert!(!launched.get());
}

#[test]
fn out_of_bounds_axis_fails_before_any_candidate_runs() {
    let input = dense(DType::F32, &[2, 3, 4]);
    let output = dense(DType::F32, &[2, 3, 1]);
    let mut tuner = reduce_tuner();
    let touched = Cell::new(false);
    let bench = |_c: ReduceCandidate, _plan: &ReduceInputs| {
        touched.set(true);
        Outcome::Measured(1)
    };
    let done = autotune_reduce(&mut tuner, &scope(0), &input, &output, 3, &bench, |_c| {
        touched.set(true);
        Ok::<(), CandidateFailure>(())
    });
    assert_eq!(done.err(), Some(TuneError::InvalidKeyParameters));
    assert!(!touched.get());
    for axis in 0..3 {
        let key = create_key(&input, &output, &axis).unwrap();
        assert_eq!(tuner.lookup(&scope(0), &key), None);
    }
}

#[test]
fn a_failing_winner_is_reported() {
    let input = dense(DType::F32, &[1024]);
    let mut tuner = sum_tuner();
    let bench = |_c: SumCandidate, _plan: &SyntheticOperand| Outcome::Measured(1);
    let done = autotune_sum(&mut tuner, &scope(0), &input, &bench, |_c: SumCandidate| {
        Err::<(), CandidateFailure>(CandidateFailure::ExecutionFailure)
    });
    assert_eq!(
        done.err(),
        Some(TuneError::KernelFailed(CandidateFailure::ExecutionFailure))
    );
    let key = create_key_sum(&input);
    assert_eq!(tuner.lookup(&scope(0), &key), Some(Decision::Winner(0)));
}

#[test]
fn registries_list_the_candidates_in_order() {
    assert_eq!(
        reduce_candidates(),
        vec![
            ReduceCandidate::Reduce,
            ReduceCandidate::ReduceShared,
            ReduceCandidate::ReducePlane,
            ReduceCandidate::ReduceSharedPlane,
        ]
    );
    assert_eq!(
        sum_candidates(),
        vec![
            SumCandidate::Chained,
            SumCandidate::OneShot(1),
            SumCandidate::OneShot(2),
            SumCandidate::OneShot(4),
            SumCandidate::OneShot(8),
            SumCandidate::OneShot(16),
            SumCandidate::OneShot(32),
            SumCandidate::OneShot(64),
        ]
    );
    assert_eq!(
        matmul_candidates(),
        vec![MatmulCandidate::Tiling2d, MatmulCandidate::Accelerated, MatmulCandidate::Simple]
    );
    assert_eq!(
        conv_transpose2d_candidates(),
        vec![ConvTranspose2dCandidate::Direct, ConvTranspose2dCandidate::Col2Im]
    );
    assert_eq!(reduce_tuner().candidates(), 4);
    assert_eq!(sum_tuner().candidates(), 8);
    assert_eq!(matmul_tuner().candidates(), 3);
    assert_eq!(conv_transpose2d_tuner().candidates(), 2);
}

#[test]
fn reduce_candidates_stand_for_the_four_launch_strategies() {
    assert_eq!(
        ReduceCandidate::Reduce.strategy(),
        ReduceLaunch { shared: false, use_planes: false }
    );
    assert_eq!(
        ReduceCandidate::ReduceShared.strategy(),
        ReduceLaunch { shared: true, use_planes: false }
    );
    assert_eq!(
        ReduceCandidate::ReducePlane.strategy(),
        ReduceLaunch { shared: false, use_planes: true }
    );
    assert_eq!(
        ReduceCandidate::ReduceSharedPlane.strategy(),
        ReduceLaunch { shared: true, use_planes: true }
    );
}

#[test]
fn tiling_declines_a_grid_beyond_the_device_limit() {
    assert_eq!(tiling2d_launch_check(&vec![64, 64], (1, 1, 1)), Ok(()));
    assert_eq!(
        tiling2d_launch_check(&vec![65, 64], (1, 1, 1)),
        Err(CandidateFailure::Declined)
    );
    assert_eq!(tiling2d_launch_check(&vec![65, 64], (2, 1, 1)), Ok(()));
    assert_eq!(
        tiling2d_launch_check(&vec![64, 129], (1, 2, 1)),
        Err(CandidateFailure::Declined)
    );
    assert_eq!(tiling2d_launch_check(&vec![9, 64, 129], (1, 3, 1)), Ok(()));
    assert_eq!(tiling2d_launch_check(&vec![0, 0], (0, 0, 0)), Ok(()));
    assert_eq!(tiling2d_launch_check(&vec![64], (9, 9, 9)), Err(CandidateFailure::Declined));
    assert_eq!(
        tiling2d_launch_check(&vec![usize::MAX, 1], (u32::MAX, 1, 1)),
        Err(CandidateFailure::Declined)
    );
}

#[test]
fn autotune_is_the_default_strategy() {
    assert_eq!(MatmulStrategy::default(), MatmulStrategy::Autotune);
    assert_eq!(MatmulStrategy::configured(true), MatmulStrategy::Autotune);
    assert_eq!(MatmulStrategy::configured(false), MatmulStrategy::Cube);
}

#[test]
fn shapes_without_a_matmul_key_fail_before_any_candidate_runs() {
    let lhs = dense(DType::F32, &[64]);
    let rhs = dense(DType::F32, &[64]);
    let out = dense(DType::F32, &[1]);
    let mut tuner = matmul_tuner();
    let touched = Cell::new(false);
    let bench = |_c: MatmulCandidate, _plan: &MatmulInputs| {
        touched.set(true);
        Outcome::Measured(1)
    };
    let done = matmul(
        &mut tuner,
        &scope(0),
        &lhs,
        &rhs,
        &out,
        DType::F32,
        MatmulStrategy::Autotune,
        || Ok::<u8, CandidateFailure>(0),
        &bench,
        |_c| {
            touched.set(true);
            Ok::<u8, CandidateFailure>(1)
        },
    );
    assert_eq!(done, Err(TuneError::InvalidKeyParameters));
    assert!(!touched.get());
}

#[test]
fn the_cube_strategy_runs_the_default_kernel_and_leaves_the_cache_alone() {
    let lhs = dense(DType::F32, &[64, 64]);
    let rhs = dense(DType::F32, &[64, 64]);
    let out = dense(DType::F32, &[64, 64]);
    let mut tuner = matmul_tuner();
    let touched = Cell::new(false);
    let bench = |_c: MatmulCandidate, _plan: &MatmulInputs| {
        touched.set(true);
        Outcome::Measured(1)
    };
    let done = matmul(
        &mut tuner,
        &scope(0),
        &lhs,
        &rhs,
        &out,
        DType::F32,
        MatmulStrategy::Cube,
        || Ok::<&str, CandidateFailure>("default"),
        &bench,
        |_c| Ok::<&str, CandidateFailure>("tuned"),
    );
    assert_eq!(done, Ok("default"));
    assert!(!touched.get());
    let key = cube_autotune::matmul::create_key(&lhs, &rhs, &out, DType::F32).unwrap();
    assert_eq!(tuner.lookup(&scope(0), &key), None);
    let failed = matmul(
        &mut tuner,
        &scope(0),
        &lhs,
        &rhs,
        &out,
        DType::F32,
        MatmulStrategy::Cube,
        || Err::<&str, CandidateFailure>(CandidateFailure::ExecutionFailure),
        &bench,
        |_c| Ok::<&str, CandidateFailure>("tuned"),
    );
    assert_eq!(failed, Err(TuneError::KernelFailed(CandidateFailure::ExecutionFailure)));
}

#[test]
fn the_autotune_strategy_goes_through_the_tuner() {
    let lhs = dense(DType::F32, &[64, 64]);
    let rhs = dense(DType::F32, &[64, 64]);
    let out = dense(DType::F32, &[64, 64]);
    let mut tuner = matmul_tuner();
    let bench = |c: MatmulCandidate, plan: &MatmulInputs| {
        assert_eq!(plan.0.fill, Fill::Uniform { low: -10, high: 10 });
        assert_eq!(plan.1.fill, Fill::Uniform { low: -10, high: 10 });
        assert_eq!(plan.2.fill, Fill::Fresh);
        match c {
            MatmulCandidate::Tiling2d => Outcome::Measured(20),
            MatmulCandidate::Accelerated => Outcome::Measured(10),
            MatmulCandidate::Simple => Outcome::Measured(10),
        }
    };
    let done = matmul(
        &mut tuner,
        &scope(0),
        &lhs,
        &rhs,
        &out,
        DType::F32,
        MatmulStrategy::Autotune,
        || Ok::<Option<MatmulCandidate>, CandidateFailure>(None),
        &bench,
        |c| Ok::<Option<MatmulCandidate>, CandidateFailure>(Some(c)),
    );
    assert_eq!(done, Ok(Some(MatmulCandidate::Accelerated)));
    let key = cube_autotune::matmul::create_key(&lhs, &rhs, &out, DType::F32).unwrap();
    assert_eq!(tuner.lookup(&scope(0), &key), Some(Decision::Winner(1)));
    let plan = matmul_input_gen(&key, &lhs, &rhs, &out);
    assert_eq!(plan.0.desc.dims, vec![64, 64]);
    assert_eq!(plan.2.desc.dims, vec![64, 64]);
}
