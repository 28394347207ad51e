use query_gateway::scaling::{Load, ScalingConfig, ScalingManager};

fn config() -> ScalingConfig {
    ScalingConfig { min_vcore: 1, max_vcore: 4, cooldown_period: 1_000 }
}

#[test]
fn test_scaling_manager() {
    let mut scaling_manager = ScalingManager::new(config(), 0);
    assert_eq!(scaling_manager.monitor_and_scale(Load::Normal, "0", 5_000), None);
    assert_eq!(scaling_manager.vcore_count(), 1);
    assert!(scaling_manager.history().is_empty());
}

#[test]
fn high_load_adds_a_core_after_the_cooldown() {
    let mut m = ScalingManager::new(config(), 0);
    assert_eq!(m.monitor_and_scale(Load::High, "0.9", 999), None);
    assert_eq!(m.vcore_count(), 1);
    assert_eq!(m.monitor_and_scale(Load::High, "0.9", 1_000), Some(2));
    assert_eq!(m.vcore_count(), 2);
    assert_eq!(m.monitor_and_scale(Load::High, "0.95", 1_500), None);
    assert_eq!(m.monitor_and_scale(Load::High, "0.95", 2_000), Some(3));
    let history = m.history();
    assert_eq!(history.len(), 2);
    assert_eq!(history[0].timestamp, 1_000);
    assert_eq!(history[0].old_scale, 1);
    assert_eq!(history[0].new_scale, 2);
    assert_eq!(history[0].reason, "High usage: 0.9");
    assert_eq!(history[1].reason, "High usage: 0.95");
}

#[test]
fn scale_stays_inside_its_bounds() {
    let mut m = ScalingManager::new(config(), 0);
    let mut now = 0;
    for _ in 0..10 {
        now += 1_000;
        m.monitor_and_scale(Load::High, "1", now);
        assert!(m.vcore_count() >= 1 && m.vcore_count() <= 4);
    }
    assert_eq!(m.vcore_count(), 4);
    assert_eq!(m.history().len(), 3);
    for _ in 0..10 {
        now += 1_000;
        m.monitor_and_scale(Load::Low, "0.1", now);
        assert!(m.vcore_count() >= 1 && m.vcore_count() <= 4);
    }
    assert_eq!(m.vcore_count(), 1);
    assert_eq!(m.history().len(), 6);
    assert_eq!(m.history()[5].reason, "Low usage: 0.1");
    assert_eq!(m.history()[5].old_scale, 2);
    assert_eq!(m.history()[5].new_scale, 1);
}

#[test]
fn a_clock_that_goes_back_counts_as_no_time() {
    let mut m = ScalingManager::new(config(), 5_000);
    assert_eq!(m.monitor_and_scale(Load::High, "1", 10), None);
    assert_eq!(m.vcore_count(), 1);
}
