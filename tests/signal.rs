use autograd::{extend_signal, parse_mode, EvaluationReport, ExtensionMode, Scalar, SignalError};

#[derive(Clone, Copy, Debug, PartialEq)]
struct S(i64);

impl Scalar for S {
    fn spec_zero() -> S { S::zero() }
    fn spec_one() -> S { S::one() }
    fn spec_epsilon() -> S { S::epsilon() }
    fn spec_infinity() -> S { S::infinity() }
    fn spec_machine_epsilon() -> S { S::machine_epsilon() }
    fn spec_from_count(n: usize) -> S { S::from_count(n) }
    fn spec_plus(self, o: S) -> S { self.plus(o) }
    fn spec_minus(self, o: S) -> S { self.minus(o) }
    fn spec_times(self, o: S) -> S { self.times(o) }
    fn spec_over(self, o: S) -> S { self.over(o) }
    fn spec_negate(self) -> S { self.negate() }
    fn spec_ln(self) -> S { Scalar::ln(self) }
    fn spec_sigmoid(self) -> S { self.sigmoid() }
    fn spec_less(self, o: S) -> bool { self.less(o) }
    fn spec_less_eq(self, o: S) -> bool { self.less_eq(o) }
    fn zero() -> S { S(0) }
    fn one() -> S { S(1) }
    fn epsilon() -> S { S(0) }
    fn infinity() -> S { S(i64::MAX) }
    fn machine_epsilon() -> S { S(0) }
    fn from_count(n: usize) -> S { S(n as i64) }
    fn plus(self, o: S) -> S { S(self.0 + o.0) }
    fn minus(self, o: S) -> S { S(self.0 - o.0) }
    fn times(self, o: S) -> S { S(self.0 * o.0) }
    fn over(self, o: S) -> S { S(self.0 / o.0) }
    fn negate(self) -> S { S(-self.0) }
    fn ln(self) -> S { S(0) }
    fn sigmoid(self) -> S { S(0) }
    fn less(self, o: S) -> bool { self.0 < o.0 }
    fn less_eq(self, o: S) -> bool { self.0 <= o.0 }
}

fn sig(v: &[i64]) -> Vec<S> {
    v.iter().map(|x| S(*x)).collect()
}

fn ext(v: &[i64], filter_len: usize, mode: &str) -> Vec<i64> {
    extend_signal(&sig(v), filter_len, mode).unwrap().iter().map(|s| s.0).collect()
}

#[test]
fn extend_periodic() {
    assert_eq!(ext(&[1, 2, 3, 4], 4, "periodic"), vec![2, 3, 4, 1, 2, 3, 4, 1, 2, 3]);
}

#[test]
fn extend_reflect() {
    assert_eq!(ext(&[1, 2, 3, 4], 4, "reflect"), vec![3, 2, 1, 1, 2, 3, 4, 3, 2, 1]);
    assert_eq!(ext(&[1, 2, 3], 5, "reflect"), vec![2, 1, 3, 2, 1, 2, 3, 2, 1, 3, 2]);
}

#[test]
fn extend_symmetric() {
    assert_eq!(ext(&[1, 2, 3, 4], 4, "symmetric"), vec![3, 2, 1, 1, 2, 3, 4, 3, 2, 3]);
    assert_eq!(ext(&[5, 6], 3, "symmetric"), vec![6, 5, 5, 6, 5, 6]);
}

#[test]
fn extend_constant_and_zero() {
    assert_eq!(ext(&[1, 2, 3, 4], 3, "constant"), vec![1, 1, 1, 2, 3, 4, 4, 4]);
    assert_eq!(ext(&[1, 2, 3, 4], 3, "zero"), vec![0, 0, 1, 2, 3, 4, 0, 0]);
}

#[test]
fn extend_empty_signal_gives_zeros() {
    assert_eq!(ext(&[], 3, "periodic"), vec![0, 0, 0, 0]);
    assert_eq!(ext(&[], 1, "whatever"), Vec::<i64>::new());
}

#[test]
fn extend_rejects_unknown_mode_and_long_padding() {
    assert_eq!(
        extend_signal(&sig(&[1, 2]), 2, "mirror"),
        Err(SignalError::ValueError(
            "Unsupported extension mode: mirror. Valid modes are 'symmetric', 'periodic', 'reflect', 'constant', and 'zero'."
                .to_string()
        ))
    );
    assert!(extend_signal(&sig(&[1, 2]), 4, "periodic").is_err());
    assert!(extend_signal(&sig(&[1, 2]), 5, "reflect").is_err());
    assert_eq!(ext(&[1, 2], 4, "reflect"), vec![1, 2, 1, 1, 2, 1, 2, 1]);
}

#[test]
fn mode_names() {
    assert_eq!(parse_mode("zero"), Some(ExtensionMode::Zero));
    assert_eq!(parse_mode("Zero"), None);
}

#[test]
fn evaluation_report_store_and_lookup() {
    let mut report: EvaluationReport<i64> = EvaluationReport::new();
    report.add_results("model1", "dataset1", vec![("accuracy".to_string(), 90), ("error".to_string(), 10)]);
    report.add_results("model2", "dataset1", vec![("accuracy".to_string(), 80)]);
    report.add_results("model1", "dataset1", vec![("accuracy".to_string(), 95), ("f1".to_string(), 7)]);
    assert_eq!(report.get_result("model1", "dataset1", "accuracy"), Some(95));
    assert_eq!(report.get_result("model1", "dataset1", "error"), Some(10));
    assert_eq!(report.get_result("model2", "dataset1", "accuracy"), Some(80));
    assert_eq!(report.get_result("model2", "dataset1", "error"), None);
    assert_eq!(report.get_result("model3", "dataset1", "accuracy"), None);
    assert_eq!(report.model_names, vec!["model1".to_string(), "model2".to_string()]);
    assert_eq!(report.dataset_names, vec!["dataset1".to_string()]);
    assert_eq!(report.metric_names, vec!["accuracy".to_string(), "error".to_string(), "f1".to_string()]);
    assert_eq!(report.results.len(), 4);
}
