use poly_ob::settings::{default_bind, default_capacity, default_plan_horizon};

#[test]
fn config_defaults() {
    assert_eq!(default_plan_horizon(), 5);
    assert_eq!(default_capacity(), 20);
    assert_eq!(default_bind(), "0.0.0.0:3000");
}
