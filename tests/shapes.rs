use burn_demo::conv::{ConvBlockConfig, ConvBlockRecord};
use burn_demo::layers::{AdaptiveAvgPool2d, Conv2d, Dims2, Dims4, Fresh, Linear, ShapeError};
use burn_demo::residual::{conv_block_count, ResBlockConfig, ResBlockRecord};
use burn_demo::resnet::{
    flatten, pool_side, reduced_extent, resnet18, resnet50, ConstructError, ResNetConfig, ResNetRecord,
};

fn dims(batch: usize, channels: usize, height: usize, width: usize) -> Dims4 {
    Dims4 { batch, channels, height, width }
}

#[test]
fn conv_block_keeps_spatial_dims() {
    let block = ConvBlockConfig::new([3, 8], [3, 3]).init();
    assert_eq!(block.forward_shape(dims(2, 3, 10, 12)), Ok(dims(2, 8, 10, 12)));
    assert_eq!(block.batchnorm.num_features, 8);
}

#[test]
fn conv_block_rectangular_odd_kernel_keeps_spatial_dims() {
    let block = ConvBlockConfig::new([4, 4], [5, 1]).init();
    assert_eq!(block.forward_shape(dims(1, 4, 3, 3)), Ok(dims(1, 4, 3, 3)));
}

#[test]
fn conv_block_even_kernel_grows_by_one() {
    let block = ConvBlockConfig::new([4, 4], [2, 3]).init();
    assert_eq!(block.forward_shape(dims(1, 4, 5, 5)), Ok(dims(1, 4, 6, 5)));
}

#[test]
fn conv_block_zero_kernel_is_rejected() {
    let block = ConvBlockConfig::new([4, 4], [3, 0]).init();
    assert_eq!(
        block.forward_shape(dims(1, 4, 5, 7)),
        Err(ShapeError::BadKernel { kernel: 0, extent: 7 })
    );
}

#[test]
fn res_block_even_kernel_fails_at_residual_add() {
    let block = ResBlockConfig::new(4, [2, 2]).init(2);
    assert_eq!(
        block.forward_shape(dims(1, 4, 5, 5)),
        Err(ShapeError::ResidualMismatch { expected: dims(1, 4, 5, 5), found: dims(1, 4, 6, 6) })
    );
}

#[test]
fn conv_block_rejects_wrong_channels() {
    let block = ConvBlockConfig::new([3, 8], [3, 3]).init();
    assert_eq!(
        block.forward_shape(dims(2, 4, 10, 12)),
        Err(ShapeError::ChannelMismatch { expected: 3, found: 4 })
    );
}

#[test]
fn conv_block_restores_conv_only() {
    let block = ConvBlockConfig::new([2, 5], [3, 3]).init_with(ConvBlockRecord { conv: 42u32 });
    assert_eq!(block.conv.params, 42);
    assert_eq!(block.conv.channels, [2, 5]);
    assert_eq!(block.batchnorm.num_features, 5);
}

#[test]
fn res_block_depth_rule() {
    assert_eq!(conv_block_count(0), 0);
    assert_eq!(conv_block_count(1), 0);
    assert_eq!(conv_block_count(2), 1);
    assert_eq!(conv_block_count(3), 2);
    let cfg = ResBlockConfig::new(16, [3, 3]);
    assert_eq!(cfg.init(1).num_conv_blocks(), 0);
    assert_eq!(cfg.init(2).num_conv_blocks(), 1);
    assert_eq!(cfg.init(3).num_conv_blocks(), 2);
}

#[test]
fn res_block_keeps_shape() {
    let block = ResBlockConfig::new(16, [3, 3]).init(3);
    assert_eq!(block.forward_shape(dims(4, 16, 9, 7)), Ok(dims(4, 16, 9, 7)));
    assert_eq!(
        block.forward_shape(dims(4, 8, 9, 7)),
        Err(ShapeError::ChannelMismatch { expected: 16, found: 8 })
    );
}

#[test]
fn res_block_of_depth_one_takes_any_shape() {
    let block = ResBlockConfig::new(16, [3, 3]).init(1);
    assert_eq!(block.forward_shape(dims(4, 8, 9, 7)), Ok(dims(4, 8, 9, 7)));
}

#[test]
fn res_block_record_in_order() {
    let record = ResBlockRecord {
        blocks: vec![
            ConvBlockRecord { conv: 10u32 },
            ConvBlockRecord { conv: 11u32 },
            ConvBlockRecord { conv: 12u32 },
        ],
    };
    let block = ResBlockConfig::new(8, [3, 3]).init_with(3, record);
    assert_eq!(block.num_conv_blocks(), 2);
    assert_eq!(block.blocks[0].conv.params, 10);
    assert_eq!(block.blocks[1].conv.params, 11);
}

#[test]
fn reduced_extent_formula() {
    assert_eq!(reduced_extent(128, 4), Some(7));
    assert_eq!(reduced_extent(32, 4), Some(1));
    assert_eq!(reduced_extent(31, 4), None);
    assert_eq!(reduced_extent(16, 4), None);
    assert_eq!(reduced_extent(100, 0), Some(99));
    assert_eq!(reduced_extent(5, 200), None);
}

#[test]
fn valid_conv_extent() {
    let c = Conv2d::valid([32, 64], [3, 3], [2, 2], Fresh);
    assert_eq!(c.forward_shape(dims(6, 32, 64, 64)), Ok(dims(6, 64, 31, 31)));
    assert_eq!(
        c.forward_shape(dims(6, 32, 2, 64)),
        Err(ShapeError::BadKernel { kernel: 3, extent: 2 })
    );
}

#[test]
fn pool_and_linear_shapes() {
    let pool = AdaptiveAvgPool2d { output_size: [64, 64] };
    assert_eq!(pool.forward_shape(dims(6, 32, 250, 250)), dims(6, 32, 64, 64));
    let linear = Linear { in_features: 12, out_features: 5, params: Fresh };
    assert_eq!(linear.forward_shape(Dims2 { batch: 3, features: 12 }), Ok(Dims2 { batch: 3, features: 5 }));
    assert_eq!(
        linear.forward_shape(Dims2 { batch: 3, features: 13 }),
        Err(ShapeError::FeatureMismatch { expected: 12, found: 13 })
    );
}

#[test]
fn flatten_shapes() {
    assert_eq!(flatten(dims(6, 256, 7, 7)), Ok(Dims2 { batch: 6, features: 12544 }));
    assert_eq!(flatten(dims(1, usize::MAX, 2, 0)), Ok(Dims2 { batch: 1, features: 0 }));
    assert_eq!(flatten(dims(1, usize::MAX, 2, 1)), Err(ShapeError::FeatureOverflow));
}

#[test]
fn resnet_stage_counts() {
    let cfg = ResNetConfig::new(10, vec![2, 3, 1, 2]);
    let net = cfg.init(vec![32, 64, 128, 256]).unwrap();
    assert_eq!(net.num_stages(), 4);
    assert_eq!(net.num_reducing_convs(), 3);
    assert_eq!(net.res_blocks[1].num_conv_blocks(), 2);
    assert_eq!(net.classification.in_features, 256 * 7 * 7);
    assert_eq!(net.classification.out_features, 10);
    let single = ResNetConfig::new(10, vec![2]).init(vec![32]).unwrap();
    assert_eq!(single.num_stages(), 1);
    assert_eq!(single.num_reducing_convs(), 0);
}

#[test]
fn resnet_construction_errors() {
    assert_eq!(ResNetConfig::new(10, vec![]).init(vec![]).err(), Some(ConstructError::NoStages));
    assert_eq!(
        ResNetConfig::new(10, vec![2, 2, 2, 2]).init(vec![32, 64, 128]).err(),
        Some(ConstructError::LengthMismatch { widths: 3, depths: 4 })
    );
    assert_eq!(
        ResNetConfig::new(10, vec![2, 2, 2, 2]).with_input_size([8, 128]).init(vec![32, 64, 128, 256]).err(),
        Some(ConstructError::InputTooSmall)
    );
    assert_eq!(
        ResNetConfig::new(10, vec![2]).init(vec![usize::MAX]).err(),
        Some(ConstructError::TooManyFeatures)
    );
}

fn numbered_record(depths: &[usize], stages: usize) -> ResNetRecord<u32> {
    let mut res_blocks = Vec::new();
    for (i, d) in depths.iter().enumerate() {
        let blocks = (0..*d).map(|j| ConvBlockRecord { conv: (100 * (i + 1) + j) as u32 }).collect();
        res_blocks.push(ResBlockRecord { blocks });
    }
    ResNetRecord {
        conv: 1,
        res_blocks,
        reducing_conv: (0..stages).map(|i| 10 + i as u32).collect(),
        classification: 2,
    }
}

#[test]
fn resnet_restores_from_record() {
    let cfg = ResNetConfig::new(10, vec![2, 3, 1, 2]);
    let net = cfg.init_with(numbered_record(&[1, 2, 0, 1], 3), vec![32, 64, 128, 256]).unwrap();
    assert_eq!(net.num_stages(), 4);
    assert_eq!(net.num_reducing_convs(), 3);
    assert_eq!(net.conv.params, 1);
    assert_eq!(net.classification.params, 2);
    assert_eq!(net.reducing_conv[2].params, 12);
    assert_eq!(net.res_blocks[1].blocks[0].conv.params, 200);
    assert_eq!(net.res_blocks[1].blocks[1].conv.params, 201);
    assert_eq!(net.res_blocks[3].blocks[0].conv.params, 400);
    let fresh = cfg.init(vec![32, 64, 128, 256]).unwrap();
    let input = dims(6, 3, 256, 256);
    assert_eq!(net.forward_shape(input), fresh.forward_shape(input));
}

#[test]
fn resnet_record_too_short() {
    let cfg = ResNetConfig::new(10, vec![2, 3]);
    assert_eq!(
        cfg.init_with(numbered_record(&[1, 1], 1), vec![32, 64]).err(),
        Some(ConstructError::RecordMismatch)
    );
    assert_eq!(
        cfg.init_with(numbered_record(&[1, 2], 0), vec![32, 64]).err(),
        Some(ConstructError::RecordMismatch)
    );
    assert!(cfg.init_with(numbered_record(&[1, 2], 1), vec![32, 64]).is_ok());
}

#[test]
fn resnet18_output_shape() {
    let net = resnet18(100);
    assert_eq!(net.num_stages(), 4);
    assert_eq!(net.forward_shape(dims(6, 3, 256, 256)), Ok(Dims2 { batch: 6, features: 100 }));
}

#[test]
fn resnet50_output_shape() {
    let net = resnet50(100);
    assert_eq!(net.res_blocks[2].num_conv_blocks(), 5);
    assert_eq!(net.forward_shape(dims(6, 3, 256, 256)), Ok(Dims2 { batch: 6, features: 100 }));
}

#[test]
fn resnet50_is_deeper_than_resnet18() {
    let count = |net: &burn_demo::resnet::ResNet<Fresh>| -> usize {
        net.res_blocks.iter().map(|r| r.num_conv_blocks()).sum()
    };
    assert_eq!(count(&resnet18(100)), 4);
    assert_eq!(count(&resnet50(100)), 12);
}

#[test]
fn resnet_stem_mismatch_fails_at_first_stage() {
    let net = ResNetConfig::new(100, vec![2, 2, 2, 2])
        .with_in_channels([3, 16])
        .init(vec![32, 64, 128, 256])
        .unwrap();
    assert_eq!(
        net.forward_shape(dims(6, 3, 256, 256)),
        Err(ShapeError::ChannelMismatch { expected: 32, found: 16 })
    );
}

#[test]
fn resnet_stem_mismatch_with_single_conv_free_stage_fails_at_reducer() {
    let net = ResNetConfig::new(100, vec![1, 2])
        .with_in_channels([3, 16])
        .init(vec![32, 64])
        .unwrap();
    assert_eq!(
        net.forward_shape(dims(2, 3, 256, 256)),
        Err(ShapeError::ChannelMismatch { expected: 32, found: 16 })
    );
}

#[test]
fn resnet_rejects_wrong_input_channels() {
    let net = resnet18(100);
    assert_eq!(
        net.forward_shape(dims(6, 1, 256, 256)),
        Err(ShapeError::ChannelMismatch { expected: 3, found: 1 })
    );
}

#[test]
fn pool_side_widens_the_reduced_side() {
    assert_eq!(pool_side(128, 4), Some(63));
    assert_eq!(pool_side(256, 4), Some(127));
    assert_eq!(pool_side(128, 1), Some(63));
    assert_eq!(pool_side(32, 4), Some(15));
    assert_eq!(pool_side(31, 4), None);
}

#[test]
fn resnet_pools_to_the_derived_side() {
    let net = resnet18(100);
    assert_eq!(net.pool.output_size, [63, 63]);
}

#[test]
fn resnet_sized_for_a_larger_input() {
    let net = ResNetConfig::new(100, vec![2, 2, 2, 2])
        .with_input_size([256, 256])
        .init(vec![32, 64, 128, 256])
        .unwrap();
    assert_eq!(net.classification.in_features, 256 * 15 * 15);
    assert_eq!(net.pool.output_size, [127, 127]);
    assert_eq!(net.forward_shape(dims(6, 3, 256, 256)), Ok(Dims2 { batch: 6, features: 100 }));
}

#[test]
fn resnet_with_one_stage_accepts_input() {
    let net = ResNetConfig::new(10, vec![2]).init(vec![32]).unwrap();
    assert_eq!(net.num_reducing_convs(), 0);
    assert_eq!(net.classification.in_features, 32 * 63 * 63);
    assert_eq!(net.forward_shape(dims(1, 3, 100, 100)), Ok(Dims2 { batch: 1, features: 10 }));
}
