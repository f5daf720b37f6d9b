use frameos::parity::{
    validate_renderer_driver_parity, DriverContract, DriverSchedulingContract, RendererContract,
    RendererSchedulingContract,
};

#[test]
fn validates_matching_contracts() {
    let renderer = RendererContract {
        api_version: "v1".to_string(),
        supports_layers: true,
        supported_color_formats: vec!["rgb565".to_string(), "rgb888".to_string()],
        max_fps: 30,
        scheduling: RendererSchedulingContract {
            target_fps: 20,
            tick_budget_ms: 25,
            drop_policy: "drop_oldest".to_string(),
        },
    };
    let driver = DriverContract {
        api_version: "v1".to_string(),
        device_kind: "eink".to_string(),
        required_renderer_formats: vec!["rgb565".to_string()],
        supports_partial_refresh: true,
        scheduling: DriverSchedulingContract {
            backpressure_policy: "drop".to_string(),
            max_queue_depth: 0,
        },
    };

    let report =
        validate_renderer_driver_parity(&renderer, &driver).expect("contracts should validate");
    assert_eq!(report.shared_formats, vec!["rgb565".to_string()]);
    assert_eq!(report.renderer_target_fps, 20);
    assert_eq!(report.renderer_contract_source, "fixture");
    assert_eq!(report.driver_contract_source, "fixture");
}
