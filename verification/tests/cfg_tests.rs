use ap_sitl::cfg::{
    layout_of, CfgError, Servo, ServoMapping, ServoPktCfg, SitlCfg, PWM_16_MAGIC, PWM_16_SIZE,
    PWM_32_MAGIC, PWM_32_SIZE,
};

fn mapping(fl: usize, fr: usize, rl: usize, rr: usize) -> ServoMapping {
    ServoMapping { fl, fr, rl, rr }
}

#[test]
fn iter_lists_in_motor_order() {
    assert_eq!(mapping(3, 1, 2, 0).iter(), [3, 1, 2, 0]);
}

#[test]
fn layout_of_versions() {
    assert_eq!(layout_of(16), Some((18458, 40, 15)));
    assert_eq!(layout_of(32), Some((29569, 72, 31)));
    assert_eq!(layout_of(8), None);
}

#[test]
fn valid_pwm16_config() {
    let cfg = ServoPktCfg::from_sitl_cfg(SitlCfg { pwm_ver: 16, servos: mapping(0, 1, 2, 15) });
    assert_eq!(
        cfg,
        Ok(ServoPktCfg { magic: PWM_16_MAGIC, pwm_size: PWM_16_SIZE, servo_mapping: mapping(0, 1, 2, 15) })
    );
}

#[test]
fn valid_pwm32_config() {
    let cfg = ServoPktCfg::from_sitl_cfg(SitlCfg { pwm_ver: 32, servos: mapping(31, 16, 2, 3) });
    assert_eq!(
        cfg,
        Ok(ServoPktCfg { magic: PWM_32_MAGIC, pwm_size: PWM_32_SIZE, servo_mapping: mapping(31, 16, 2, 3) })
    );
}

#[test]
fn invalid_pwm_ver() {
    let cfg = ServoPktCfg::from_sitl_cfg(SitlCfg { pwm_ver: 24, servos: mapping(0, 1, 2, 3) });
    assert_eq!(cfg, Err(CfgError::InvalidPwmVer { pwm_ver: 24 }));
}

#[test]
fn channel_out_of_range_for_pwm16() {
    let cfg = ServoPktCfg::from_sitl_cfg(SitlCfg { pwm_ver: 16, servos: mapping(0, 1, 2, 16) });
    assert_eq!(
        cfg,
        Err(CfgError::InvalidServo { servo: Servo::Rr, value: 16, max: 15, pwm_ver: 16 })
    );
}

#[test]
fn first_bad_channel_is_reported() {
    let cfg = ServoPktCfg::from_sitl_cfg(SitlCfg { pwm_ver: 32, servos: mapping(0, 40, 2, 99) });
    assert_eq!(
        cfg,
        Err(CfgError::InvalidServo { servo: Servo::Fr, value: 40, max: 31, pwm_ver: 32 })
    );
}

#[test]
fn pwm_ver_checked_before_channels() {
    let cfg = ServoPktCfg::from_sitl_cfg(SitlCfg { pwm_ver: 0, servos: mapping(100, 100, 100, 100) });
    assert_eq!(cfg, Err(CfgError::InvalidPwmVer { pwm_ver: 0 }));
}

#[test]
fn is_valid_matches_layouts() {
    let good = ServoPktCfg::from_sitl_cfg(SitlCfg { pwm_ver: 16, servos: mapping(0, 1, 2, 3) }).unwrap();
    assert!(good.is_valid());
    let mixed = ServoPktCfg { magic: PWM_32_MAGIC, pwm_size: PWM_16_SIZE, servo_mapping: mapping(0, 1, 2, 3) };
    assert!(!mixed.is_valid());
    let far = ServoPktCfg { magic: PWM_16_MAGIC, pwm_size: PWM_16_SIZE, servo_mapping: mapping(0, 1, 2, 20) };
    assert!(!far.is_valid());
    let far32 = ServoPktCfg { magic: PWM_32_MAGIC, pwm_size: PWM_32_SIZE, servo_mapping: mapping(0, 1, 2, 20) };
    assert!(far32.is_valid());
}
