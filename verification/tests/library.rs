use candelora_metal_kernels::activation_quant::{ActivationQuantConfig, ActivationQuantMode};

#[test]
fn crate_loads() {
    assert!(true);
}

#[test]
fn activations_are_not_quantized_by_default() {
    assert_eq!(ActivationQuantMode::default(), ActivationQuantMode::Off);
    let config = ActivationQuantConfig::default();
    assert_eq!(config.mode, ActivationQuantMode::Off);
    assert!(!config.strict);
    assert!(!config.is_enabled());
}
