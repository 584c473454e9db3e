use cube_autotune::conv_transpose2d::{
    create_key as conv_create_key, create_transpose2d_input, ConvTranspose2dAutotuneKey,
    ConvTransposeOptions, Size2,
};
use cube_autotune::error::TuneError;
use cube_autotune::matmul::{create_key as matmul_create_key, MatmulAutotuneKey};
use cube_autotune::reduce::{
    create_key, create_key_sum, reduce_input_gen, sum_input_gen, ReduceAutotuneKey, SumAutotuneKey,
};
use cube_autotune::synthetic::Fill;
use cube_autotune::tensor::{checked_product, DType, TensorDesc};
use cube_autotune::tune_key::CubeAutotuneKey;

fn dense(dtype: DType, dims: &[usize]) -> TensorDesc {
    TensorDesc::contiguous(dtype, dims.to_vec()).unwrap()
}

fn options() -> ConvTransposeOptions {
    ConvTransposeOptions {
        stride: Size2 { h: 2, w: 2 },
        padding: Size2 { h: 1, w: 1 },
        padding_out: Size2 { h: 0, w: 0 },
        dilation: Size2 { h: 1, w: 1 },
        groups: 1,
    }
}

#[test]
fn contiguous_strides_are_row_major() {
    let t = dense(DType::F32, &[2, 3, 4]);
    assert_eq!(t.strides, vec![12, 4, 1]);
    assert_eq!(t.dims, vec![2, 3, 4]);
    assert_eq!(t.rank(), 3);
    assert_eq!(t.num_elements(), Some(24));
    let scalar = dense(DType::F32, &[]);
    assert_eq!(scalar.strides, Vec::<usize>::new());
    assert_eq!(scalar.num_elements(), Some(1));
}

#[test]
fn contiguous_rejects_a_layout_that_overflows() {
    assert!(TensorDesc::contiguous(DType::F32, vec![usize::MAX, 2]).is_none());
    assert!(TensorDesc::contiguous(DType::F32, vec![0, usize::MAX, 2]).is_none());
    assert!(TensorDesc::contiguous(DType::F32, vec![usize::MAX, 1]).is_some());
}

#[test]
fn checked_product_detects_overflow_and_zero() {
    assert_eq!(checked_product(&vec![]), Some(1));
    assert_eq!(checked_product(&vec![3, 5, 7]), Some(105));
    assert_eq!(checked_product(&vec![usize::MAX, 2]), None);
    assert_eq!(checked_product(&vec![usize::MAX, 2, 0]), Some(0));
}

#[test]
fn reduce_key_holds_anchored_axis_stride_and_outer_product() {
    let input = dense(DType::F32, &[2, 3, 4]);
    let key = ReduceAutotuneKey::generate(&input, 2).unwrap();
    assert_eq!(
        key,
        ReduceAutotuneKey {
            dtype: DType::F32,
            reduce_axis_shape: 4,
            reduce_axis_stride: 1,
            outer_axes_product: 8,
        }
    );
    let key = ReduceAutotuneKey::generate(&input, 0).unwrap();
    assert_eq!(
        key,
        ReduceAutotuneKey {
            dtype: DType::F32,
            reduce_axis_shape: 2,
            reduce_axis_stride: 16,
            outer_axes_product: 1,
        }
    );
    let key = ReduceAutotuneKey::generate(&input, 1).unwrap();
    assert_eq!(key.reduce_axis_shape, 4);
    assert_eq!(key.reduce_axis_stride, 4);
    assert_eq!(key.outer_axes_product, 2);
}

#[test]
fn reduce_key_new_anchors_every_size() {
    let key = ReduceAutotuneKey::new(DType::I32, 100, 33, 6);
    assert_eq!(key.dtype, DType::I32);
    assert_eq!(key.reduce_axis_shape, 128);
    assert_eq!(key.reduce_axis_stride, 32);
    assert_eq!(key.outer_axes_product, 8);
}

#[test]
fn reduce_key_is_deterministic() {
    let input = dense(DType::F16, &[7, 130, 5]);
    let output = dense(DType::F16, &[7, 1, 5]);
    let again = dense(DType::F16, &[7, 130, 5]);
    let first = create_key(&input, &output, &1);
    let second = create_key(&input, &output, &1);
    let third = create_key(&again, &output, &1);
    assert_eq!(first, second);
    assert_eq!(first, third);
    assert!(matches!(first, Ok(CubeAutotuneKey::Reduce(_))));
}

#[test]
fn reduce_key_ignores_differences_within_a_bucket() {
    let output = dense(DType::F32, &[1]);
    let a = create_key(&dense(DType::F32, &[4, 31]), &output, &1).unwrap();
    let b = create_key(&dense(DType::F32, &[4, 33]), &output, &1).unwrap();
    let c = create_key(&dense(DType::F32, &[4, 48]), &output, &1).unwrap();
    assert_eq!(a, b);
    assert_ne!(a, c);
}

#[test]
fn reduce_axis_equal_to_rank_is_rejected() {
    let input = dense(DType::F32, &[2, 3, 4]);
    let output = dense(DType::F32, &[2, 3, 1]);
    assert_eq!(create_key(&input, &output, &3), Err(TuneError::InvalidKeyParameters));
    assert_eq!(create_key(&input, &output, &4), Err(TuneError::InvalidKeyParameters));
    assert_eq!(
        ReduceAutotuneKey::generate(&input, 3),
        Err(TuneError::InvalidKeyParameters)
    );
    assert!(create_key(&input, &output, &2).is_ok());
}

#[test]
fn reduce_key_needs_a_stride_for_every_axis() {
    let input = TensorDesc::new(DType::F32, vec![2, 3], vec![3]);
    let output = dense(DType::F32, &[2, 1]);
    assert_eq!(create_key(&input, &output, &0), Err(TuneError::InvalidKeyParameters));
}

#[test]
fn reduce_key_caps_an_outer_product_beyond_the_machine_word() {
    let input = TensorDesc::new(DType::F32, vec![usize::MAX, 4, 8], vec![9, 8, 1]);
    let output = dense(DType::F32, &[1]);
    let key = ReduceAutotuneKey::generate(&input, 2).unwrap();
    assert_eq!(
        key,
        ReduceAutotuneKey {
            dtype: DType::F32,
            reduce_axis_shape: 8,
            reduce_axis_stride: 1,
            outer_axes_product: usize::MAX,
        }
    );
    assert_eq!(create_key(&input, &output, &2), Ok(CubeAutotuneKey::Reduce(key)));
    assert!(create_key(&input, &output, &1).is_ok());
}

#[test]
fn sum_key_holds_the_anchored_length() {
    let input = dense(DType::F32, &[10, 100]);
    assert_eq!(
        create_key_sum(&input),
        CubeAutotuneKey::Sum(SumAutotuneKey { dtype: DType::F32, length: 1024 })
    );
    assert_eq!(SumAutotuneKey::generate(&input).length, 1024);
    assert_eq!(SumAutotuneKey::new(DType::F32, 1000).length, 1024);
    assert_eq!(create_key_sum(&input), create_key_sum(&input));
}

#[test]
fn sums_in_one_bucket_share_a_key() {
    let a = create_key_sum(&dense(DType::F32, &[1000]));
    let b = create_key_sum(&dense(DType::F32, &[1024]));
    let c = create_key_sum(&dense(DType::F32, &[4, 300]));
    let d = create_key_sum(&dense(DType::F32, &[1536]));
    let e = create_key_sum(&dense(DType::F16, &[1024]));
    assert_eq!(a, b);
    assert_eq!(a, c);
    assert_ne!(a, d);
    assert_ne!(a, e);
}

#[test]
fn sum_key_caps_a_length_beyond_the_machine_word() {
    let input = TensorDesc::new(DType::F32, vec![usize::MAX, 2], vec![2, 1]);
    assert_eq!(
        create_key_sum(&input),
        CubeAutotuneKey::Sum(SumAutotuneKey { dtype: DType::F32, length: usize::MAX })
    );
    let empty = TensorDesc::new(DType::F32, vec![usize::MAX, 2, 0], vec![0, 0, 1]);
    assert_eq!(SumAutotuneKey::generate(&empty).length, 0);
}

#[test]
fn matmul_key_anchors_sizes_and_caps_the_batch() {
    let lhs = dense(DType::F32, &[2, 3, 64, 128]);
    let rhs = dense(DType::F32, &[2, 3, 128, 64]);
    let out = dense(DType::F32, &[2, 3, 64, 64]);
    assert_eq!(
        matmul_create_key(&lhs, &rhs, &out, DType::F32),
        Ok(CubeAutotuneKey::Matmul(MatmulAutotuneKey {
            round: true,
            broadcast: false,
            m: 64,
            k: 128,
            n: 64,
            batch: 8,
            dtype: DType::F32,
        }))
    );
    let key = MatmulAutotuneKey::from_shape(&vec![1000, 70, 9], &vec![1, 9, 5], DType::F16).unwrap();
    assert_eq!(
        key,
        MatmulAutotuneKey {
            round: false,
            broadcast: true,
            m: 64,
            k: 8,
            n: 4,
            batch: 256,
            dtype: DType::F16,
        }
    );
}

#[test]
fn matmul_key_caps_a_batch_beyond_the_machine_word() {
    let key =
        MatmulAutotuneKey::from_shape(&vec![usize::MAX, 2, 64, 64], &vec![1, 1, 64, 64], DType::F32)
            .unwrap();
    assert_eq!(
        key,
        MatmulAutotuneKey {
            round: true,
            broadcast: true,
            m: 64,
            k: 64,
            n: 64,
            batch: 256,
            dtype: DType::F32,
        }
    );
}

#[test]
fn matmul_key_rejects_shapes_without_a_matrix() {
    assert_eq!(
        MatmulAutotuneKey::from_shape(&vec![4], &vec![4], DType::F32),
        Err(TuneError::InvalidKeyParameters)
    );
    assert_eq!(
        MatmulAutotuneKey::from_shape(&vec![2, 4, 4], &vec![4, 4], DType::F32),
        Err(TuneError::InvalidKeyParameters)
    );
    assert!(MatmulAutotuneKey::from_shape(&vec![4, 4], &vec![4, 4], DType::F32).is_ok());
}

#[test]
fn shapes_in_one_bucket_share_a_conv_key() {
    let weights = dense(DType::F32, &[8, 3, 3, 3]);
    let first = dense(DType::F32, &[2, 3, 32, 32]);
    let second = dense(DType::F32, &[2, 3, 33, 31]);
    let a = conv_create_key(&first, &weights, &None, &options(), DType::F32);
    let b = conv_create_key(&second, &weights, &None, &options(), DType::F32);
    assert!(a.is_ok());
    assert_eq!(a, b);
    let far = dense(DType::F32, &[2, 3, 48, 32]);
    let c = conv_create_key(&far, &weights, &None, &options(), DType::F32);
    assert_ne!(a, c);
}

#[test]
fn conv_key_records_every_parameter() {
    let weights = dense(DType::F32, &[8, 3, 5, 7]);
    let input = dense(DType::F32, &[2, 3, 33, 31]);
    let bias = Some(dense(DType::F32, &[8]));
    let key = conv_create_key(&input, &weights, &bias, &options(), DType::BF16).unwrap();
    assert_eq!(
        key,
        CubeAutotuneKey::ConvTranspose2d(ConvTranspose2dAutotuneKey {
            kernel_size: Size2 { h: 5, w: 7 },
            stride: Size2 { h: 2, w: 2 },
            padding: Size2 { h: 1, w: 1 },
            padding_out: Size2 { h: 0, w: 0 },
            dilation: Size2 { h: 1, w: 1 },
            groups: 1,
            in_channels: 4,
            out_channels: 8,
            height: 32,
            width: 32,
            batch_size: 2,
            has_bias: true,
            dtype: DType::BF16,
        })
    );
}

#[test]
fn conv_key_rejects_operands_without_four_axes() {
    let weights = dense(DType::F32, &[8, 3, 3, 3]);
    let input = dense(DType::F32, &[3, 32, 32]);
    assert_eq!(
        conv_create_key(&input, &weights, &None, &options(), DType::F32),
        Err(TuneError::InvalidKeyParameters)
    );
    let input = dense(DType::F32, &[2, 3, 32, 32]);
    let weights = dense(DType::F32, &[8, 3, 3]);
    assert_eq!(
        conv_create_key(&input, &weights, &None, &options(), DType::F32),
        Err(TuneError::InvalidKeyParameters)
    );
}

#[test]
fn conv_synthetic_operands_follow_the_key() {
    let weights = dense(DType::F32, &[8, 2, 3, 5]);
    let input = dense(DType::F32, &[2, 6, 33, 31]);
    let mut opts = options();
    opts.groups = 2;
    let key = conv_create_key(&input, &weights, &None, &opts, DType::F32).unwrap();
    // The real call has no bias, and neither has the plan.
    let plan = create_transpose2d_input(&key, &input, &weights, &None, &opts).unwrap();
    assert_eq!(plan.input.desc.dims, vec![2, 8, 32, 32]);
    assert_eq!(plan.input.desc.strides, vec![8 * 32 * 32, 32 * 32, 32, 1]);
    assert_eq!(plan.input.desc.dtype, DType::F32);
    assert_eq!(plan.input.fill, Fill::Uniform { low: -1, high: 1 });
    assert_eq!(plan.weights.desc.dims, vec![8, 4, 3, 5]);
    assert_eq!(plan.weights.fill, Fill::Uniform { low: -1, high: 1 });
    assert!(plan.bias.is_none());
    assert_eq!(plan.options, opts);
    // The presence of a bias mirrors the key, not the operand handed in.
    let with_bias = conv_create_key(&input, &weights, &Some(dense(DType::F32, &[8])), &opts, DType::F32)
        .unwrap();
    let plan = create_transpose2d_input(&with_bias, &input, &weights, &None, &opts).unwrap();
    let bias = plan.bias.unwrap();
    assert_eq!(bias.desc.dims, vec![8]);
    assert_eq!(bias.desc.strides, vec![1]);
    assert_eq!(bias.fill, Fill::Uniform { low: -1, high: 1 });
}

#[test]
fn conv_synthetic_operands_need_a_conv_key_with_groups() {
    let weights = dense(DType::F32, &[8, 3, 3, 3]);
    let input = dense(DType::F32, &[2, 3, 32, 32]);
    let mut opts = options();
    opts.groups = 0;
    let key = conv_create_key(&input, &weights, &None, &opts, DType::F32).unwrap();
    assert_eq!(
        create_transpose2d_input(&key, &input, &weights, &None, &opts).err(),
        Some(TuneError::InvalidKeyParameters)
    );
    let sum = create_key_sum(&input);
    assert_eq!(
        create_transpose2d_input(&sum, &input, &weights, &None, &options()).err(),
        Some(TuneError::InvalidKeyParameters)
    );
}

#[test]
fn reduce_synthetic_operands_mirror_the_real_ones() {
    let input = TensorDesc::new(DType::F32, vec![4, 6], vec![1, 4]);
    let output = dense(DType::F32, &[4, 1]);
    let key = create_key(&input, &output, &1).unwrap();
    let (synthetic_in, synthetic_out, dim) = reduce_input_gen(&key, &input, &output, &1);
    assert_eq!(synthetic_in.desc.dims, vec![4, 6]);
    assert_eq!(synthetic_in.desc.strides, vec![1, 4]);
    assert_eq!(synthetic_in.desc.dtype, DType::F32);
    assert_eq!(synthetic_in.fill, Fill::Uniform { low: -10, high: 10 });
    assert_eq!(synthetic_out.desc.dims, vec![4, 1]);
    assert_eq!(synthetic_out.fill, Fill::Fresh);
    assert_eq!(dim, 1);
}

#[test]
fn sum_synthetic_operand_mirrors_the_real_one() {
    let input = dense(DType::I32, &[1024]);
    let key = create_key_sum(&input);
    let synthetic = sum_input_gen(&key, &input);
    assert_eq!(synthetic.desc.dims, vec![1024]);
    assert_eq!(synthetic.desc.strides, vec![1]);
    assert_eq!(synthetic.desc.dtype, DType::I32);
    assert_eq!(synthetic.fill, Fill::Uniform { low: -10, high: 10 });
}
