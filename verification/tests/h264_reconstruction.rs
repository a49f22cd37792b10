use decv::h264::error::H264Error;
use decv::h264::macroblock::{
    CodedBlockPattern, IntraLumaPrediction, IntraMacroblockHeader, IntraPredictionModeSyntax,
    IntraResidual, ResidualBlock,
};
use decv::h264::quantization::MacroblockQuantizer;
use decv::h264::reconstruction::{reconstruct_intra_residual, ReconstructedIntraResidual};
use decv::h264::transform::{
    reconstruct_residual_4x4, resolve_scaling_lists_4x4, ColorComponent, PredictionClass, ScanMode,
};

fn header(luma_prediction: IntraLumaPrediction) -> IntraMacroblockHeader {
    IntraMacroblockHeader {
        luma_prediction,
        chroma_prediction_mode: 0,
        coded_block_pattern: CodedBlockPattern { luma: 0, chroma: 0 },
        qp_delta: 0,
    }
}

fn residual(luma_block_size: u8, luma_dc: Option<ResidualBlock>) -> IntraResidual {
    IntraResidual {
        luma_dc,
        luma: [ResidualBlock::empty(luma_block_size); 16],
        chroma_dc: [ResidualBlock::empty(4); 2],
        chroma_ac: [[ResidualBlock::empty(15); 4]; 2],
    }
}

fn quantizer() -> MacroblockQuantizer {
    MacroblockQuantizer {
        luma: 0,
        chroma_cb: 0,
        chroma_cr: 0,
        transform_bypass: false,
    }
}

#[test]
fn reconstructs_zero_and_impulse_4x4_residuals() {
    let header = header(IntraLumaPrediction::FourByFour(
        [IntraPredictionModeSyntax {
            use_predicted: true,
            remaining_mode: None,
        }; 16],
    ));
    let scaling = resolve_scaling_lists_4x4(None, None).unwrap();
    let zero = reconstruct_intra_residual(
        &header,
        &residual(16, None),
        quantizer(),
        &scaling,
        ScanMode::Frame,
    )
    .unwrap();
    assert_eq!(
        zero,
        ReconstructedIntraResidual {
            luma: [[[0; 4]; 4]; 16],
            chroma_cb: [[[0; 4]; 4]; 4],
            chroma_cr: [[[0; 4]; 4]; 4],
        }
    );

    let mut impulse = residual(16, None);
    impulse.luma[0].coefficients[0] = 64;
    impulse.luma[0].total_coeff = 1;
    let reconstructed =
        reconstruct_intra_residual(&header, &impulse, quantizer(), &scaling, ScanMode::Frame)
            .unwrap();
    assert_eq!(reconstructed.luma[0], [[10; 4]; 4]);
    assert_eq!(reconstructed.luma[1], [[0; 4]; 4]);
}

#[test]
fn transforms_intra16_luma_dc_before_each_ac_block() {
    let header = header(IntraLumaPrediction::SixteenBySixteen { mode: 2 });
    let scaling = resolve_scaling_lists_4x4(None, None).unwrap();
    let mut coefficients = residual(15, Some(ResidualBlock::empty(16)));
    coefficients.luma_dc.as_mut().unwrap().coefficients[0] = 64;
    let reconstructed = reconstruct_intra_residual(
        &header,
        &coefficients,
        quantizer(),
        &scaling,
        ScanMode::Frame,
    )
    .unwrap();
    assert!(reconstructed.luma.iter().all(|block| block == &[[3; 4]; 4]));

    let mut ac_only = residual(15, Some(ResidualBlock::empty(16)));
    ac_only.luma[0].coefficients[0] = 64;
    let reconstructed =
        reconstruct_intra_residual(&header, &ac_only, quantizer(), &scaling, ScanMode::Frame)
            .unwrap();
    let mut merged = [0; 16];
    merged[1] = 64;
    let expected = reconstruct_residual_4x4(
        &merged,
        ScanMode::Frame,
        0,
        scaling.get(PredictionClass::Intra, ColorComponent::Luma),
        true,
    )
    .unwrap();
    assert_eq!(reconstructed.luma[0], expected);
}

#[test]
fn transforms_chroma_dc_and_keeps_components_independent() {
    let header = header(IntraLumaPrediction::FourByFour(
        [IntraPredictionModeSyntax {
            use_predicted: true,
            remaining_mode: None,
        }; 16],
    ));
    let scaling = resolve_scaling_lists_4x4(None, None).unwrap();
    let mut coefficients = residual(16, None);
    coefficients.chroma_dc[0].coefficients[0] = 64;
    let reconstructed = reconstruct_intra_residual(
        &header,
        &coefficients,
        quantizer(),
        &scaling,
        ScanMode::Frame,
    )
    .unwrap();
    assert!(
        reconstructed
            .chroma_cb
            .iter()
            .all(|block| block == &[[5; 4]; 4])
    );
    assert!(
        reconstructed
            .chroma_cr
            .iter()
            .all(|block| block == &[[0; 4]; 4])
    );
}

#[test]
fn rejects_mismatched_or_unsupported_transform_paths() {
    let scaling = resolve_scaling_lists_4x4(None, None).unwrap();
    let four = header(IntraLumaPrediction::FourByFour(
        [IntraPredictionModeSyntax {
            use_predicted: true,
            remaining_mode: None,
        }; 16],
    ));
    assert_eq!(
        reconstruct_intra_residual(
            &four,
            &residual(15, None),
            quantizer(),
            &scaling,
            ScanMode::Frame,
        ),
        Err(H264Error::InvalidSyntax(
            "residual block size does not match its transform path"
        ))
    );

    let eight = header(IntraLumaPrediction::EightByEight(
        [IntraPredictionModeSyntax {
            use_predicted: true,
            remaining_mode: None,
        }; 4],
    ));
    assert!(matches!(
        reconstruct_intra_residual(
            &eight,
            &residual(16, None),
            quantizer(),
            &scaling,
            ScanMode::Frame,
        ),
        Err(H264Error::UnsupportedFeature(_))
    ));

    let bypass = MacroblockQuantizer {
        transform_bypass: true,
        ..quantizer()
    };
    assert!(matches!(
        reconstruct_intra_residual(
            &four,
            &residual(16, None),
            bypass,
            &scaling,
            ScanMode::Frame,
        ),
        Err(H264Error::UnsupportedFeature(_))
    ));
}

#[test]
fn each_component_depends_on_its_own_blocks() {
    let header = header(IntraLumaPrediction::FourByFour(
        [IntraPredictionModeSyntax {
            use_predicted: true,
            remaining_mode: None,
        }; 16],
    ));
    let scaling = resolve_scaling_lists_4x4(None, None).unwrap();
    let mut first = residual(16, None);
    first.luma[3].coefficients[0] = 64;
    first.chroma_dc[1].coefficients[0] = 64;
    let mut second = first;
    second.chroma_dc[1].coefficients[0] = -64;
    second.chroma_ac[1][2].coefficients[0] = 32;
    let reconstruct = |residual: &IntraResidual| {
        reconstruct_intra_residual(&header, residual, quantizer(), &scaling, ScanMode::Frame)
            .unwrap()
    };
    let first = reconstruct(&first);
    let second = reconstruct(&second);
    assert_eq!(first.luma, second.luma);
    assert_eq!(first.luma[3], [[10; 4]; 4]);
    assert_eq!(first.chroma_cb, second.chroma_cb);
    assert_ne!(first.chroma_cr, second.chroma_cr);
}

#[test]
fn other_transforms_are_refused_whatever_the_blocks_hold() {
    let eight = header(IntraLumaPrediction::EightByEight(
        [IntraPredictionModeSyntax {
            use_predicted: true,
            remaining_mode: None,
        }; 4],
    ));
    let sixteen = header(IntraLumaPrediction::SixteenBySixteen { mode: 2 });
    let bypass = MacroblockQuantizer {
        transform_bypass: true,
        ..quantizer()
    };
    let scaling = resolve_scaling_lists_4x4(None, None).unwrap();
    for (header, quantizer) in [(&eight, quantizer()), (&sixteen, bypass)] {
        for size in [15, 16] {
            assert!(matches!(
                reconstruct_intra_residual(
                    header,
                    &residual(size, None),
                    quantizer,
                    &scaling,
                    ScanMode::Frame
                ),
                Err(H264Error::UnsupportedFeature(_))
            ));
        }
    }
}
