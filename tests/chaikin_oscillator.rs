use chaikin_oscillator::chaikin_oscillator::{ChaikinOscillator, Error};
use chaikin_oscillator::cross::{Cross, Sign};
use chaikin_oscillator::ma::{MaKind, MA};

fn ema(kind_period: u8, seed: f64, values: &[f64]) -> Vec<f64> {
    let alpha = 2.0 / (kind_period as f64 + 1.0);
    let mut last = seed;
    let mut out = Vec::new();
    for &v in values {
        last += (v - last) * alpha;
        out.push(last);
    }
    out
}

fn sign_of(v: f64) -> Sign {
    if v > 0.0 {
        Sign::Positive
    } else if v < 0.0 {
        Sign::Negative
    } else {
        Sign::Zero
    }
}

fn config(ma1: MA, ma2: MA, window: u8) -> ChaikinOscillator {
    ChaikinOscillator { ma1, ma2, window }
}

#[test]
fn default_configuration() {
    let cfg = ChaikinOscillator::default();
    assert_eq!(cfg.ma1, MA::new(MaKind::EMA, 3));
    assert_eq!(cfg.ma2, MA::new(MaKind::EMA, 10));
    assert_eq!(cfg.window, 0);
    assert!(cfg.validate());
}

#[test]
fn output_shape_is_one_value_one_signal() {
    assert_eq!(ChaikinOscillator::default().size(), (1, 1));
    let odd = config(MA::new(MaKind::SMA, 9), MA::new(MaKind::WMA, 2), 7);
    assert_eq!(odd.size(), (1, 1));
}

#[test]
fn validation_clauses() {
    let ema = |p| MA::new(MaKind::EMA, p);
    assert!(config(ema(1), ema(2), 0).validate());
    assert!(config(ema(1), ema(254), 255).validate());
    assert!(!config(ema(0), ema(10), 0).validate());
    assert!(!config(ema(5), ema(5), 0).validate());
    assert!(!config(ema(10), ema(3), 0).validate());
    assert!(!config(ema(3), ema(255), 0).validate());
    assert!(!config(ema(3), MA::new(MaKind::SMA, 10), 0).validate());
}

#[test]
fn reversed_periods_fail_to_init() {
    let cfg = config(MA::new(MaKind::EMA, 10), MA::new(MaKind::EMA, 3), 0);
    assert_eq!(cfg.init().err(), Some(Error::InvalidConfiguration));
}

#[test]
fn every_broken_clause_fails_to_init() {
    let ema = |p| MA::new(MaKind::EMA, p);
    for cfg in [
        config(ema(0), ema(10), 0),
        config(ema(5), ema(5), 0),
        config(ema(3), ema(255), 0),
        config(ema(3), MA::new(MaKind::DEMA, 10), 0),
    ] {
        assert_eq!(cfg.init().err(), Some(Error::InvalidConfiguration));
    }
}

#[test]
fn init_keeps_configuration() {
    let cfg = config(MA::new(MaKind::SMA, 4), MA::new(MaKind::SMA, 20), 14);
    let inst = cfg.init().unwrap();
    assert_eq!(*inst.config(), cfg);
}

#[test]
fn set_parameter_then_init() {
    let mut cfg = ChaikinOscillator::default();
    assert_eq!(cfg.set("ma1", "EMA(5)".to_string()), Ok(()));
    assert_eq!(cfg.ma1, MA::new(MaKind::EMA, 5));
    let inst = cfg.init().unwrap();
    assert_eq!(inst.config().ma1.ma_period(), 5);
    assert_eq!(inst.config().ma2, MA::new(MaKind::EMA, 10));
}

#[test]
fn set_unknown_parameter_fails() {
    let mut cfg = ChaikinOscillator::default();
    let before = cfg;
    assert_eq!(
        cfg.set("unknown", "x".to_string()),
        Err(Error::ParameterParseError("unknown".to_string(), "x".to_string()))
    );
    assert_eq!(cfg, before);
    assert_eq!(
        cfg.set("window", "EMA(5)".to_string()),
        Err(Error::ParameterParseError("window".to_string(), "EMA(5)".to_string()))
    );
    assert_eq!(cfg, before);
}

#[test]
fn set_bad_value_fails_unchanged() {
    let mut cfg = ChaikinOscillator::default();
    let before = cfg;
    assert_eq!(
        cfg.set("ma2", "EMA(x)".to_string()),
        Err(Error::ParameterParseError("ma2".to_string(), "EMA(x)".to_string()))
    );
    assert_eq!(cfg, before);
}

#[test]
fn set_does_not_validate() {
    let mut cfg = ChaikinOscillator::default();
    assert_eq!(cfg.set("ma2", "SMA(2)".to_string()), Ok(()));
    assert_eq!(cfg.ma2, MA::new(MaKind::SMA, 2));
    assert_eq!(cfg.ma1, MA::new(MaKind::EMA, 3));
    assert!(!cfg.validate());
    assert_eq!(cfg.init().err(), Some(Error::InvalidConfiguration));
}

#[test]
fn parse_descriptors() {
    assert_eq!(MA::parse("EMA(5)"), Some(MA::new(MaKind::EMA, 5)));
    assert_eq!(MA::parse("TRIMA(255)"), Some(MA::new(MaKind::TRIMA, 255)));
    assert_eq!(MA::parse("DEMA(0)"), Some(MA::new(MaKind::DEMA, 0)));
    assert_eq!(MA::parse("SWMA(0012)"), Some(MA::new(MaKind::SWMA, 12)));
    assert_eq!(MA::parse("SMM(7)"), Some(MA::new(MaKind::SMM, 7)));
}

#[test]
fn parse_rejects_malformed_text() {
    for text in [
        "", "EMA", "EMA()", "EMA5", "EMA(5", "EMA5)", "EMA(256)", "EMA(99999999999)", "XMA(3)",
        "ema(3)", "EMA(-3)", "EMA( 3)", "EMA(3)x", "EM(A3)", "\u{415}MA(3)", "EMA(3\u{663})",
    ] {
        assert_eq!(MA::parse(text), None, "{}", text);
    }
}

#[test]
fn similarity_is_same_family() {
    assert!(MA::new(MaKind::EMA, 3).is_similar_to(&MA::new(MaKind::EMA, 30)));
    assert!(!MA::new(MaKind::EMA, 3).is_similar_to(&MA::new(MaKind::SMA, 3)));
}

#[test]
fn cross_detector_policy() {
    let mut c = Cross::new();
    assert_eq!(c.next(Sign::Positive), 1);
    assert_eq!(c.next(Sign::Positive), 0);
    assert_eq!(c.next(Sign::Zero), 0);
    assert_eq!(c.next(Sign::Positive), 1);
    assert_eq!(c.next(Sign::Negative), -1);
    assert_eq!(c.next(Sign::Zero), 0);
    assert_eq!(c.next(Sign::Negative), -1);
    assert_eq!(c.next(Sign::Negative), 0);
    assert_eq!(c.next(Sign::Positive), 1);
    assert_eq!(Cross::default(), Cross::new());
}

#[test]
fn zero_line_scenario() {
    // Both smoothings start from the first accumulation value.
    let acc = [0.0, 5.0, 10.0, 3.0, -2.0, -8.0];
    let short = ema(3, acc[0], &acc);
    let long = ema(10, acc[0], &acc);
    let mut inst = ChaikinOscillator::default().init().unwrap();
    let mut signals = Vec::new();
    let mut values = Vec::new();
    for i in 0..acc.len() {
        let v = short[i] - long[i];
        values.push(v);
        signals.push(inst.next(sign_of(v)));
    }
    assert_eq!(values[0], 0.0);
    assert!(values[1] > 0.0 && values[2] > 0.0 && values[3] > 0.0);
    assert!(values[4] < 0.0 && values[5] < 0.0);
    assert_eq!(signals, vec![0, 1, 0, 0, -1, 0]);
}

#[test]
fn same_configuration_same_signals() {
    let values = vec![
        Sign::Zero, Sign::Negative, Sign::Positive, Sign::Positive, Sign::Zero, Sign::Negative,
        Sign::Positive,
    ];
    let mut a = ChaikinOscillator::default().init().unwrap();
    let mut b = ChaikinOscillator::default().init().unwrap();
    let ra = a.over(&values);
    let mut rb = Vec::new();
    for v in &values {
        rb.push(b.next(*v));
    }
    assert_eq!(ra, rb);
    assert_eq!(ra, vec![0, -1, 1, 0, 0, -1, 1]);
    assert!(ra.iter().all(|g| -1 <= *g && *g <= 1));
}

#[test]
fn indicator_name() {
    assert_eq!(chaikin_oscillator::chaikin_oscillator::NAME, "ChaikinOscillator");
}
