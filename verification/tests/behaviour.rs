use lufloat::alloc_buffer;
use lufloat::arith::{half_add, half_div, half_mul, half_negate, half_sub};
use lufloat::half::{half_abs, half_negative_mask, half_positive_mask, half_relu};
use lufloat::plan::{
    gemm_dims_valid, plan_chunks, plan_reduction, plan_rows, rmsnorm_dims_valid,
    softmax_dims_valid, KERNEL_CHUNK, SOFTMAX_CHUNK,
};
use lufloat::{Arena, UnifiedBuffer};

#[test]
fn readme_positive_mask_inplace() {
    let mut arena = Arena::new(2048);
    let mut buffer = UnifiedBuffer::new(&mut arena, 2048);
    let input_data = buffer.slice_mut();
    input_data[0] = 0b1_01111_0000000000; // -1.0
    input_data[1] = 0b0_00000_0000000000; // 0.0
    input_data[2] = 0b0_01111_0000000000; // 1.0
    buffer.positive_mask_inplace();
    let output_data = buffer.slice();
    assert_eq!(&output_data[..3], &[0x0000, 0x3C00, 0x3C00]);
}

#[test]
fn doc_examples_elementwise() {
    let mut arena = Arena::new(6144);
    let mut a = UnifiedBuffer::new(&mut arena, 2048);
    let mut b = UnifiedBuffer::new(&mut arena, 2048);
    let mut c = UnifiedBuffer::new(&mut arena, 2048);
    let x = a.slice_mut();
    x[0] = 0b1_01111_0000000000;
    x[1] = 0b0_00000_0000000000;
    x[2] = 0b0_01111_0000000000;
    let y = b.slice_mut();
    y[0] = 0b1_01111_0000000000;
    y[1] = 0b0_00000_0000000000;
    y[2] = 0b0_01111_0000000000;
    a.abs(&mut c);
    assert_eq!(&c.slice()[..3], &[0x3C00, 0x0000, 0x3C00]);
    a.relu(&mut c);
    assert_eq!(&c.slice()[..3], &[0x0000, 0x0000, 0x3C00]);
    a.negative_mask(&mut c);
    assert_eq!(&c.slice()[..3], &[0x3C00, 0x0000, 0x0000]);
    a.add(&b, &mut c);
    assert_eq!(&c.slice()[..3], &[0xC000, 0x0000, 0x4000]);
    a.sub(&b, &mut c);
    assert_eq!(&c.slice()[..3], &[0x0000, 0x0000, 0x0000]);
    a.mul(&b, &mut c);
    assert_eq!(&c.slice()[..3], &[0x3C00, 0x0000, 0x3C00]);
    a.div(&b, &mut c);
    assert_eq!(&c.slice()[..3], &[0x3C00, 0x7E00, 0x3C00]);
    a.add_inplace(&b);
    assert_eq!(&a.slice()[..3], &[0xC000, 0x0000, 0x4000]);
    a.sub_inplace(&b);
    assert_eq!(&a.slice()[..3], &[0xBC00, 0x0000, 0x3C00]);
    a.div_inplace(&b);
    assert_eq!(&a.slice()[..3], &[0x3C00, 0x7E00, 0x3C00]);
    a.abs_inplace();
    assert_eq!(&a.slice()[..3], &[0x3C00, 0x7E00, 0x3C00]);
    b.relu_inplace();
    assert_eq!(&b.slice()[..3], &[0x0000, 0x0000, 0x3C00]);
    b.negative_mask_inplace();
    assert_eq!(&b.slice()[..3], &[0x0000, 0x0000, 0x0000]);
    c.positive_mask(&mut b);
    assert_eq!(&b.slice()[..3], &[0x3C00, 0x3C00, 0x3C00]);
}

#[test]
fn arena_hands_out_consecutive_space() {
    let mut arena = Arena::new(6144);
    assert_eq!(arena.capacity(), 12288);
    assert_eq!(arena.used(), 0);
    let a = UnifiedBuffer::new(&mut arena, 2048);
    let b = UnifiedBuffer::new(&mut arena, 4096);
    assert_eq!(a.offset(), 0);
    assert_eq!(b.offset(), 4096);
    assert_eq!(a.len(), 2048);
    assert_eq!(b.len(), 4096);
    assert_eq!(arena.used(), 12288);
    assert_eq!(arena.remaining(), 0);
    assert!(a.slice().iter().all(|&v| v == 0));
    assert_eq!(arena.allocate(4096), None);
    arena.reset();
    assert_eq!(arena.used(), 0);
    let c = UnifiedBuffer::new(&mut arena, 6144);
    assert_eq!(c.offset(), 0);
    assert_eq!(arena.used(), 12288);
}

#[test]
fn arena_allocate_bytes() {
    let mut arena = Arena::new(4096);
    assert_eq!(arena.allocate(4096), Some(0));
    assert_eq!(arena.allocate(8192), None);
    assert_eq!(arena.used(), 4096);
    assert_eq!(arena.allocate(4096), Some(4096));
    assert_eq!(arena.remaining(), 0);
    assert_eq!(arena.allocate(0), Some(8192));
}

#[test]
fn buffers_are_disjoint_and_aligned() {
    let mut arena = Arena::new(2048 * 10);
    let mut bufs = Vec::new();
    for len in [2048usize, 4096, 2048, 6144] {
        bufs.push(UnifiedBuffer::new(&mut arena, len));
    }
    bufs.push(alloc_buffer(&mut arena, 3).unwrap());
    assert!(arena.used() <= arena.capacity());
    for (i, a) in bufs.iter().enumerate() {
        assert_eq!(a.offset() % 4096, 0);
        assert!(a.offset() + 2 * a.len() <= arena.capacity());
        for b in bufs.iter().skip(i + 1) {
            assert!(a.offset() + 2 * a.len() <= b.offset());
        }
    }
}

#[test]
fn last_write_wins() {
    let mut arena = Arena::new(2048);
    let mut buffer = UnifiedBuffer::new(&mut arena, 2048);
    let writes = [(3usize, 0x3C00u16), (7, 0x4000), (3, 0xBC00), (9, 0x7C00), (7, 0x0001)];
    let data = buffer.slice_mut();
    for &(i, v) in writes.iter() {
        data[i] = v;
    }
    let out = buffer.slice();
    assert_eq!(out[3], 0xBC00);
    assert_eq!(out[7], 0x0001);
    assert_eq!(out[9], 0x7C00);
    assert_eq!(out[0], 0);
    assert_eq!(out[2047], 0);
}

#[test]
fn alloc_buffer_pads_to_blocks() {
    let mut arena = Arena::new(8192);
    let a = alloc_buffer(&mut arena, 1).unwrap();
    assert_eq!(a.len(), 1);
    assert_eq!(a.offset(), 0);
    assert_eq!(arena.used(), 4096);
    let b = alloc_buffer(&mut arena, 2049).unwrap();
    assert_eq!(b.len(), 2049);
    assert_eq!(b.offset(), 4096);
    assert_eq!(arena.used(), 12288);
    assert!(alloc_buffer(&mut arena, 2049).is_none());
    assert_eq!(arena.used(), 12288);
    let c = alloc_buffer(&mut arena, 2048).unwrap();
    assert_eq!(c.offset(), 12288);
    assert_eq!(arena.used(), 16384);
    let empty = alloc_buffer(&mut arena, 0).unwrap();
    assert_eq!(empty.len(), 0);
    assert_eq!(arena.used(), 16384);
    assert!(alloc_buffer(&mut arena, usize::MAX).is_none());
    assert!(alloc_buffer(&mut arena, usize::MAX / 2 + 1).is_none());
}

#[test]
fn chunk_plans() {
    assert_eq!(plan_chunks(0, 4), vec![]);
    assert_eq!(plan_chunks(10, 4), vec![(0, 4), (4, 4), (8, 2)]);
    assert_eq!(plan_chunks(8, 4), vec![(0, 4), (4, 4)]);
    assert_eq!(plan_chunks(3, KERNEL_CHUNK), vec![(0, 3)]);
    assert_eq!(
        plan_chunks(KERNEL_CHUNK * 2 + 5, KERNEL_CHUNK),
        vec![(0, KERNEL_CHUNK), (KERNEL_CHUNK, KERNEL_CHUNK), (2 * KERNEL_CHUNK, 5)]
    );
    assert_eq!(plan_rows(30, 3, 10), vec![(0, 9), (9, 9), (18, 9), (27, 3)]);
    assert_eq!(plan_rows(0, 3, 1), vec![]);
    assert_eq!(plan_rows(4096, 2048, SOFTMAX_CHUNK), vec![(0, 4096)]);
}

#[test]
fn reduction_plans() {
    assert_eq!(plan_reduction(100), (vec![], 100));
    assert_eq!(plan_reduction(2048), (vec![2048], 1));
    assert_eq!(plan_reduction(1 << 23), (vec![1 << 23, 1 << 12], 2));
    assert_eq!(plan_reduction(5000), (vec![5000], 2));
}

#[test]
fn shape_checks() {
    assert!(gemm_dims_valid(4096, 4096, 4096, 64, 64, 64));
    assert!(gemm_dims_valid(128 * 64, 64 * 192, 128 * 192, 128, 192, 64));
    assert!(!gemm_dims_valid(4096, 4096, 4096, 32, 128, 64));
    assert!(!gemm_dims_valid(4095, 4096, 4096, 64, 64, 64));
    assert!(!gemm_dims_valid(0, 0, 0, 1 << 62, 1 << 62, 64));
    assert!(rmsnorm_dims_valid(1 << 16, 2048, 1 << 16, 2048));
    assert!(!rmsnorm_dims_valid(1 << 16, 2048, 1 << 16, 0));
    assert!(!rmsnorm_dims_valid(1 << 16, 2048, 1 << 15, 2048));
    assert!(!rmsnorm_dims_valid(1 << 16, 128, 1 << 16, 128));
    assert!(softmax_dims_valid(1 << 16, 2048));
    assert!(!softmax_dims_valid(1 << 16, 0));
    assert!(!softmax_dims_valid(100, 12));
    assert!(!softmax_dims_valid(96, 12));
}

#[test]
fn bit_operations() {
    assert_eq!(half_abs(0xBC00), 0x3C00);
    assert_eq!(half_abs(0xFE00), 0x7E00);
    assert_eq!(half_abs(half_abs(0x8001)), 0x0001);
    assert_eq!(half_relu(0x8000), 0x0000);
    assert_eq!(half_relu(0x7E00), 0x7E00);
    assert_eq!(half_relu(0xFC00), 0x0000);
    assert_eq!(half_positive_mask(0x0000), 0x3C00);
    assert_eq!(half_positive_mask(0x8000), 0x0000);
    assert_eq!(half_negative_mask(0x8000), 0x3C00);
    for x in [0u16, 1, 0x3C00, 0x7C00, 0x7E00, 0x8000, 0xBC00, 0xFFFF] {
        assert_eq!(half_positive_mask(x) + half_negative_mask(x), 0x3C00);
        assert_eq!(half_relu(half_relu(x)), half_relu(x));
        assert_eq!(half_abs(half_negate(x)), half_abs(x));
    }
}

#[test]
fn arithmetic_special_values() {
    // 1 + 1 = 2
    assert_eq!(half_add(0x3C00, 0x3C00), 0x4000);
    // -0 + -0 = -0, -0 + +0 = +0, x + (-x) = +0
    assert_eq!(half_add(0x8000, 0x8000), 0x8000);
    assert_eq!(half_add(0x8000, 0x0000), 0x0000);
    assert_eq!(half_add(0xBC00, 0x3C00), 0x0000);
    // 65504 + 16 is exactly halfway to 65536: ties to even overflows to infinity
    assert_eq!(half_add(0x7BFF, 0x4C00), 0x7C00);
    // 65504 + 8 rounds back to 65504
    assert_eq!(half_add(0x7BFF, 0x4800), 0x7BFF);
    // inf - inf is NaN, inf + inf is inf
    assert_eq!(half_add(0x7C00, 0xFC00), 0x7E00);
    assert_eq!(half_add(0x7C00, 0x7C00), 0x7C00);
    assert_eq!(half_sub(0x7C00, 0x7C00), 0x7E00);
    assert_eq!(half_sub(0x3C00, 0x7C00), 0xFC00);
    // NaN propagates as the quiet NaN
    assert_eq!(half_add(0x7C01, 0x3C00), 0x7E00);
    // 2 * 3 = 6
    assert_eq!(half_mul(0x4000, 0x4200), 0x4600);
    // smallest subnormal * 0.5 is halfway to zero: ties to even gives +0
    assert_eq!(half_mul(0x0001, 0x3800), 0x0000);
    // smallest subnormal * 1.5 rounds to 2 units
    assert_eq!(half_mul(0x0001, 0x3E00), 0x0002);
    // -2 * 0 = -0, inf * 0 = NaN
    assert_eq!(half_mul(0xC000, 0x0000), 0x8000);
    assert_eq!(half_mul(0x7C00, 0x0000), 0x7E00);
    // 1 / 3 = 0.33325195 (0x3555)
    assert_eq!(half_div(0x3C00, 0x4200), 0x3555);
    // x / 0 = inf, 0 / 0 = NaN, x / inf = 0
    assert_eq!(half_div(0xBC00, 0x0000), 0xFC00);
    assert_eq!(half_div(0x0000, 0x0000), 0x7E00);
    assert_eq!(half_div(0x3C00, 0xFC00), 0x8000);
    // 1 - 1 = +0
    assert_eq!(half_sub(0x3C00, 0x3C00), 0x0000);
}

#[test]
fn arithmetic_identities_and_commutativity() {
    for i in 0..0x7C00u16 {
        for x in [i, i | 0x8000] {
            if x != 0x8000 {
                assert_eq!(half_add(x, 0x0000), x);
            }
            assert_eq!(half_sub(x, x), 0x0000);
            assert_eq!(half_mul(x, 0x3C00), x);
            assert_eq!(half_div(x, 0x3C00), x);
            let y = x.wrapping_mul(31).wrapping_add(7);
            assert_eq!(half_add(x, y), half_add(y, x));
            assert_eq!(half_mul(x, y), half_mul(y, x));
            assert_eq!(half_sub(x, y), half_add(x, half_negate(y)));
        }
    }
}
